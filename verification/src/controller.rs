//! The controller: turns decoded datagrams and commands into calls on an
//! input device, and keeps track of an Alt+Tab gesture in progress.

use vstd::prelude::*;
use crate::protocol::{
    delta_read, fault_of, packet_of, parse_tcp_payload, parse_udp_payload, tcp_command_of,
    udp_fields_of, ProtocolError, TcpCommand, UdpPacket,
};

verus! {

/// Something that can move the pointer, scroll, click and press keys.
///
/// `calls` is the history of calls made on the device, and each method's
/// contract says that the method adds itself to it. The controller is
/// verified against those contracts for any implementation that keeps them.
/// Implementations written as plain Rust outside verified code (the desktop
/// device, the test doubles) cannot define a spec function and keep the
/// default body of `calls`; Verus never reads them, so that they behave as
/// the contracts describe is assumed of them, not checked.
pub trait InputDevice {
    /// The type in which this device takes pointer and scroll deltas.
    type Delta;

    /// The calls made on this device so far, oldest first. Code that holds
    /// the device generically sees only what the method contracts say of
    /// it, never this default body.
    closed spec fn calls(&self) -> Seq<DeviceAction<Self::Delta>> {
        Seq::empty()
    }

    /// Reads one delta from its text; `None` when the text is no delta.
    fn parse_delta(text: &str) -> Option<Self::Delta>;

    fn move_cursor(&mut self, dx: Self::Delta, dy: Self::Delta)
        ensures
            final(self).calls() == old(self).calls().push(DeviceAction::MoveCursor { dx, dy }),
    ;

    fn scroll(&mut self, dx: Self::Delta, dy: Self::Delta)
        ensures
            final(self).calls() == old(self).calls().push(DeviceAction::Scroll { dx, dy }),
    ;

    fn left_click(&mut self)
        ensures
            final(self).calls() == old(self).calls().push(DeviceAction::LeftClick),
    ;

    fn right_click(&mut self)
        ensures
            final(self).calls() == old(self).calls().push(DeviceAction::RightClick),
    ;

    fn double_click(&mut self)
        ensures
            final(self).calls() == old(self).calls().push(DeviceAction::DoubleClick),
    ;

    fn press_alt(&mut self)
        ensures
            final(self).calls() == old(self).calls().push(DeviceAction::PressAlt),
    ;

    fn release_alt(&mut self)
        ensures
            final(self).calls() == old(self).calls().push(DeviceAction::ReleaseAlt),
    ;

    fn press_tab(&mut self)
        ensures
            final(self).calls() == old(self).calls().push(DeviceAction::PressTab),
    ;

    fn volume_up(&mut self)
        ensures
            final(self).calls() == old(self).calls().push(DeviceAction::VolumeUp),
    ;

    fn volume_down(&mut self)
        ensures
            final(self).calls() == old(self).calls().push(DeviceAction::VolumeDown),
    ;
}

/// One call made on an input device.
pub enum DeviceAction<D> {
    MoveCursor { dx: D, dy: D },
    Scroll { dx: D, dy: D },
    LeftClick,
    RightClick,
    DoubleClick,
    PressAlt,
    ReleaseAlt,
    PressTab,
    VolumeUp,
    VolumeDown,
}

/// The call that a UDP packet leads to.
pub open spec fn udp_action<D>(p: UdpPacket<D>) -> DeviceAction<D> {
    match p {
        UdpPacket::Move { dx, dy } => DeviceAction::MoveCursor { dx, dy },
        UdpPacket::Scroll { dx, dy } => DeviceAction::Scroll { dx, dy },
    }
}

/// The device call that names the same action as a command that is not
/// part of the Alt+Tab gesture; none for the gesture's two commands.
pub open spec fn plain_command_call<D>(c: TcpCommand) -> Option<DeviceAction<D>> {
    match c {
        TcpCommand::LeftClick => Some(DeviceAction::LeftClick),
        TcpCommand::RightClick => Some(DeviceAction::RightClick),
        TcpCommand::DoubleClick => Some(DeviceAction::DoubleClick),
        TcpCommand::VolumeUp => Some(DeviceAction::VolumeUp),
        TcpCommand::VolumeDown => Some(DeviceAction::VolumeDown),
        TcpCommand::AltTabStart | TcpCommand::AltTabEnd => None,
    }
}

/// What a TCP command does, given whether an Alt+Tab gesture is in
/// progress: whether one is in progress afterwards, and the calls made.
pub open spec fn tcp_reaction<D>(held: bool, c: TcpCommand) -> (bool, Seq<DeviceAction<D>>) {
    match c {
        TcpCommand::LeftClick => (held, seq![DeviceAction::LeftClick]),
        TcpCommand::RightClick => (held, seq![DeviceAction::RightClick]),
        TcpCommand::DoubleClick => (held, seq![DeviceAction::DoubleClick]),
        TcpCommand::AltTabStart => (true, seq![DeviceAction::PressAlt, DeviceAction::PressTab]),
        TcpCommand::AltTabEnd => if held {
            (false, seq![DeviceAction::ReleaseAlt])
        } else {
            (false, Seq::empty())
        },
        TcpCommand::VolumeUp => (held, seq![DeviceAction::VolumeUp]),
        TcpCommand::VolumeDown => (held, seq![DeviceAction::VolumeDown]),
    }
}

/// Whether the Alt key is held after the calls in `log`: some call pressed
/// it and none released it since.
pub open spec fn alt_held<D>(log: Seq<DeviceAction<D>>) -> bool
    decreases log.len(),
{
    if log.len() == 0 {
        false
    } else {
        match log.last() {
            DeviceAction::PressAlt => true,
            DeviceAction::ReleaseAlt => false,
            _ => alt_held(log.drop_last()),
        }
    }
}

/// Whether the Alt key is only ever released while it is held.
pub open spec fn releases_follow_presses<D>(log: Seq<DeviceAction<D>>) -> bool {
    forall|i: int|
        #![trigger log[i]]
        0 <= i < log.len() && log[i] is ReleaseAlt ==> alt_held(log.take(i))
}

/// Whether Tab is only ever pressed directly after Alt.
pub open spec fn tabs_follow_alt<D>(log: Seq<DeviceAction<D>>) -> bool {
    forall|i: int|
        #![trigger log[i]]
        0 <= i < log.len() && log[i] is PressTab ==> i > 0 && log[i - 1] is PressAlt
}

/// Dispatches datagrams and commands to an input device.
pub struct AppController<T: InputDevice> {
    device: T,
    alt_tab_active: bool,
    /// How many calls the device had seen when the controller took it.
    start: Ghost<int>,
}

impl<T: InputDevice> AppController<T> {
    /// The calls this controller has made on the device, oldest first.
    pub closed spec fn actions(&self) -> Seq<DeviceAction<T::Delta>> {
        self.device.calls().skip(self.start@)
    }

    /// Whether an Alt+Tab gesture is in progress.
    pub closed spec fn alt_tab_held(&self) -> bool {
        self.alt_tab_active
    }

    /// The device.
    pub closed spec fn device(&self) -> T {
        self.device
    }

    /// The gesture flag agrees with the calls made, the Alt key was never
    /// released unless it was held, and Tab was pressed only right after
    /// Alt.
    pub closed spec fn wf(&self) -> bool {
        &&& 0 <= self.start@ <= self.device.calls().len()
        &&& self.alt_tab_active == alt_held(self.actions())
        &&& releases_follow_presses(self.actions())
        &&& tabs_follow_alt(self.actions())
    }

    /// A controller for `device`, with no gesture in progress.
    pub fn new(device: T) -> (r: Self)
        ensures
            r.wf(),
            r.device() == device,
            r.actions() == Seq::<DeviceAction<T::Delta>>::empty(),
            !r.alt_tab_held(),
    {
        let ghost start = device.calls().len() as int;
        let r = AppController { device, alt_tab_active: false, start: Ghost(start) };
        assert(r.actions() =~= Seq::<DeviceAction<T::Delta>>::empty());
        r
    }

    /// The device.
    pub fn input(&self) -> (r: &T)
        ensures
            *r == self.device(),
    {
        &self.device
    }

    /// Reads a UDP datagram and moves the pointer or scrolls by its deltas,
    /// read with the device's `parse_delta`. A refused datagram changes
    /// nothing.
    pub fn handle_udp_payload(&mut self, payload: &[u8]) -> (r: Result<(), ProtocolError>)
        requires
            old(self).wf(),
        ensures
            final(self).wf(),
            final(self).alt_tab_held() == old(self).alt_tab_held(),
            match udp_fields_of(payload@) {
                Err(e) => fault_of(r) == Err::<(), _>(e) && *final(self) == *old(self),
                Ok((kind, dx, dy)) => exists|ox: Option<Option<T::Delta>>, oy: Option<Option<T::Delta>>|
                    #![trigger packet_of(kind, ox, oy)]
                    {
                        &&& delta_read(T::parse_delta, dx, ox)
                        &&& (ox matches Some(Some(_)) ==> delta_read(T::parse_delta, dy, oy))
                        &&& match packet_of(kind, ox, oy) {
                            Err(e) => fault_of(r) == Err::<(), _>(e) && *final(self) == *old(self),
                            Ok(p) => {
                                &&& r is Ok
                                &&& final(self).device().calls() == old(
                                    self,
                                ).device().calls().push(udp_action(p))
                                &&& final(self).actions() == old(self).actions().push(
                                    udp_action(p),
                                )
                            },
                        }
                    },
            },
    {
        let packet = parse_udp_payload(payload, T::parse_delta);
        let ghost before = self.device.calls();
        match packet {
            Ok(UdpPacket::Move { dx, dy }) => {
                let ghost a = DeviceAction::MoveCursor { dx, dy };
                self.device.move_cursor(dx, dy);
                proof {
                    lemma_one_more_call(before, self.device.calls(), self.start@, a);
                }
                Ok(())
            },
            Ok(UdpPacket::Scroll { dx, dy }) => {
                let ghost a = DeviceAction::Scroll { dx, dy };
                self.device.scroll(dx, dy);
                proof {
                    lemma_one_more_call(before, self.device.calls(), self.start@, a);
                }
                Ok(())
            },
            Err(e) => Err(e),
        }
    }

    /// Reads a TCP message and makes the calls that its command asks for
    /// (see `tcp_reaction`). A refused message changes nothing.
    pub fn handle_tcp_payload(&mut self, payload: &[u8]) -> (r: Result<(), ProtocolError>)
        requires
            old(self).wf(),
        ensures
            final(self).wf(),
            match tcp_command_of(payload@) {
                Err(e) => fault_of(r) == Err::<(), _>(e) && *final(self) == *old(self),
                Ok(c) => {
                    &&& r is Ok
                    &&& final(self).alt_tab_held() == tcp_reaction::<T::Delta>(
                        old(self).alt_tab_held(),
                        c,
                    ).0
                    &&& final(self).device().calls() == old(self).device().calls()
                        + tcp_reaction::<T::Delta>(old(self).alt_tab_held(), c).1
                    &&& final(self).actions() == old(self).actions() + tcp_reaction::<T::Delta>(
                        old(self).alt_tab_held(),
                        c,
                    ).1
                    &&& tcp_reaction::<T::Delta>(old(self).alt_tab_held(), c).1.len() == 0
                        ==> *final(self) == *old(self)
                    &&& plain_command_call::<T::Delta>(c) matches Some(a) ==> {
                        &&& final(self).device().calls() == old(self).device().calls().push(a)
                        &&& final(self).alt_tab_held() == old(self).alt_tab_held()
                    }
                },
            },
    {
        let command = match parse_tcp_payload(payload) {
            Ok(c) => c,
            Err(e) => return Err(e),
        };
        let ghost start = self.start@;
        let ghost c0 = self.device.calls();
        match command {
            TcpCommand::LeftClick => {
                self.device.left_click();
                proof {
                    lemma_one_more_call(c0, self.device.calls(), start, DeviceAction::LeftClick);
                }
            },
            TcpCommand::RightClick => {
                self.device.right_click();
                proof {
                    lemma_one_more_call(c0, self.device.calls(), start, DeviceAction::RightClick);
                }
            },
            TcpCommand::DoubleClick => {
                self.device.double_click();
                proof {
                    lemma_one_more_call(c0, self.device.calls(), start, DeviceAction::DoubleClick);
                }
            },
            TcpCommand::AltTabStart => {
                self.alt_tab_active = true;
                self.device.press_alt();
                let ghost c1 = self.device.calls();
                proof {
                    lemma_one_more_call(c0, c1, start, DeviceAction::PressAlt);
                }
                self.device.press_tab();
                proof {
                    lemma_one_more_call(c1, self.device.calls(), start, DeviceAction::PressTab);
                }
            },
            TcpCommand::AltTabEnd => {
                if self.alt_tab_active {
                    self.device.release_alt();
                    proof {
                        lemma_one_more_call(
                            c0,
                            self.device.calls(),
                            start,
                            DeviceAction::ReleaseAlt,
                        );
                    }
                    self.alt_tab_active = false;
                }
            },
            TcpCommand::VolumeUp => {
                self.device.volume_up();
                proof {
                    lemma_one_more_call(c0, self.device.calls(), start, DeviceAction::VolumeUp);
                }
            },
            TcpCommand::VolumeDown => {
                self.device.volume_down();
                proof {
                    lemma_one_more_call(c0, self.device.calls(), start, DeviceAction::VolumeDown);
                }
            },
        }
        proof {
            let more = tcp_reaction::<T::Delta>(old(self).alt_tab_active, command).1;
            assert(self.device.calls() =~= c0 + more);
            assert(self.device.calls().skip(start) =~= c0.skip(start) + more);
        }
        Ok(())
    }
}

/// What one more call on the device does to the calls a controller has
/// made since it took the device at `start`.
proof fn lemma_one_more_call<D>(
    before: Seq<DeviceAction<D>>,
    after: Seq<DeviceAction<D>>,
    start: int,
    a: DeviceAction<D>,
)
    requires
        after == before.push(a),
        0 <= start <= before.len(),
        releases_follow_presses(before.skip(start)),
        tabs_follow_alt(before.skip(start)),
        a is ReleaseAlt ==> alt_held(before.skip(start)),
        a is PressTab ==> before.skip(start).len() > 0 && before.skip(start).last() is PressAlt,
    ensures
        0 <= start <= after.len(),
        after.skip(start) == before.skip(start).push(a),
        releases_follow_presses(after.skip(start)),
        tabs_follow_alt(after.skip(start)),
        alt_held(after.skip(start)) == match a {
            DeviceAction::PressAlt => true,
            DeviceAction::ReleaseAlt => false,
            _ => alt_held(before.skip(start)),
        },
{
    assert(after.skip(start) =~= before.skip(start).push(a));
    lemma_record(before.skip(start), a);
}

/// What one more call does to the state of the Alt and Tab keys.
proof fn lemma_record<D>(log: Seq<DeviceAction<D>>, a: DeviceAction<D>)
    requires
        releases_follow_presses(log),
        tabs_follow_alt(log),
        a is ReleaseAlt ==> alt_held(log),
        a is PressTab ==> log.len() > 0 && log.last() is PressAlt,
    ensures
        releases_follow_presses(log.push(a)),
        tabs_follow_alt(log.push(a)),
        alt_held(log.push(a)) == match a {
            DeviceAction::PressAlt => true,
            DeviceAction::ReleaseAlt => false,
            _ => alt_held(log),
        },
{
    let l = log.push(a);
    assert(l.drop_last() =~= log);
    assert forall|i: int| #![trigger l[i]] 0 <= i < l.len() && l[i] is ReleaseAlt implies alt_held(
        l.take(i),
    ) by {
        if i < log.len() {
            assert(l.take(i) =~= log.take(i));
            assert(l[i] == log[i]);
        } else {
            assert(l.take(i) =~= log);
        }
    }
    assert forall|i: int| #![trigger l[i]] 0 <= i < l.len() && l[i] is PressTab implies i > 0
        && l[i - 1] is PressAlt by {
        if i < log.len() {
            assert(l[i] == log[i]);
            assert(log[i] is PressTab);
            assert(l[i - 1] == log[i - 1]);
        }
    }
}

/// The Alt key is released only while it is held, Tab is pressed only
/// right after Alt, and a gesture is in progress exactly when the calls
/// made leave the Alt key held.
pub proof fn lemma_alt_key_balanced<T: InputDevice>(c: AppController<T>)
    requires
        c.wf(),
    ensures
        releases_follow_presses(c.actions()),
        tabs_follow_alt(c.actions()),
        c.alt_tab_held() == alt_held(c.actions()),
{
}

/// The gesture state after a run of payloads that starts in state `held`.
/// Each step is the command of an accepted TCP payload, or `None` for a
/// UDP datagram or a refused payload: by the handlers' contracts those
/// leave the gesture state as it was.
pub open spec fn gesture_after(held: bool, steps: Seq<Option<TcpCommand>>) -> bool
    decreases steps.len(),
{
    if steps.len() == 0 {
        held
    } else {
        let h = gesture_after(held, steps.drop_last());
        match steps.last() {
            None => h,
            Some(c) => tcp_reaction::<()>(h, c).0,
        }
    }
}

/// Only `alt_tab_end` closes an open Alt+Tab gesture: after one has been
/// started, any run of datagrams, refused payloads and commands other than
/// `alt_tab_end` leaves it open, and the next `alt_tab_end` then makes
/// exactly one call, which releases Alt.
pub proof fn lemma_only_end_closes_gesture<D>(steps: Seq<Option<TcpCommand>>)
    requires
        forall|i: int| 0 <= i < steps.len() ==> steps[i] != Some(TcpCommand::AltTabEnd),
    ensures
        gesture_after(true, steps),
        tcp_reaction::<D>(gesture_after(true, steps), TcpCommand::AltTabEnd) == (
            false,
            seq![DeviceAction::<D>::ReleaseAlt],
        ),
    decreases steps.len(),
{
    if steps.len() > 0 {
        let rest = steps.drop_last();
        assert forall|i: int| 0 <= i < rest.len() implies rest[i] != Some(TcpCommand::AltTabEnd) by {
            assert(rest[i] == steps[i]);
        }
        lemma_only_end_closes_gesture::<D>(rest);
        assert(steps.last() == steps[steps.len() - 1]);
    }
}

/// The calls a controller has made are the latest calls on its device:
/// those since the controller took it.
pub proof fn lemma_actions_are_latest_calls<T: InputDevice>(c: AppController<T>)
    requires
        c.wf(),
    ensures
        c.actions().len() <= c.device().calls().len(),
        c.actions() == c.device().calls().subrange(
            c.device().calls().len() - c.actions().len(),
            c.device().calls().len() as int,
        ),
{
    assert(c.actions() =~= c.device().calls().subrange(
        c.device().calls().len() - c.actions().len(),
        c.device().calls().len() as int,
    ));
}

/// Ending an Alt+Tab gesture leaves none in progress, and ending it again
/// makes no call.
pub proof fn lemma_alt_tab_end_idempotent<D>(held: bool)
    ensures
        !tcp_reaction::<D>(held, TcpCommand::AltTabEnd).0,
        tcp_reaction::<D>(
            tcp_reaction::<D>(held, TcpCommand::AltTabEnd).0,
            TcpCommand::AltTabEnd,
        ) == (false, Seq::<DeviceAction<D>>::empty()),
{
}

/// Starting and then ending an Alt+Tab gesture presses Alt, presses Tab and
/// releases Alt, whatever came before.
pub proof fn lemma_alt_tab_cycle<D>(held: bool)
    ensures
        ({
            let (h1, a1) = tcp_reaction::<D>(held, TcpCommand::AltTabStart);
            let (h2, a2) = tcp_reaction::<D>(h1, TcpCommand::AltTabEnd);
            &&& !h2
            &&& a1 + a2 == seq![
                DeviceAction::<D>::PressAlt,
                DeviceAction::PressTab,
                DeviceAction::ReleaseAlt,
            ]
        }),
{
    let (h1, a1) = tcp_reaction::<D>(held, TcpCommand::AltTabStart);
    let (h2, a2) = tcp_reaction::<D>(h1, TcpCommand::AltTabEnd);
    assert(a1 + a2 =~= seq![
        DeviceAction::<D>::PressAlt,
        DeviceAction::PressTab,
        DeviceAction::ReleaseAlt,
    ]);
}

/// Every command other than the Alt+Tab ones makes exactly one call, which
/// neither presses nor releases Alt, and leaves the gesture state alone.
pub proof fn lemma_plain_commands<D>(held: bool, c: TcpCommand)
    requires
        c != TcpCommand::AltTabStart,
        c != TcpCommand::AltTabEnd,
    ensures
        tcp_reaction::<D>(held, c).0 == held,
        tcp_reaction::<D>(held, c).1.len() == 1,
        !(tcp_reaction::<D>(held, c).1[0] is PressAlt),
        !(tcp_reaction::<D>(held, c).1[0] is ReleaseAlt),
{
}

/// A command that is not part of the Alt+Tab gesture does the same whether
/// or not a gesture is in progress: it makes the single call of the same
/// name (`left_click` clicks left, `right_click` clicks right,
/// `double_click` double-clicks, `volume_up` and `volume_down` turn the
/// volume up and down), and leaves the gesture state as it was.
pub proof fn lemma_plain_commands_ignore_gesture<D>(held: bool)
    ensures
        tcp_reaction::<D>(held, TcpCommand::LeftClick) == (
            held,
            seq![DeviceAction::<D>::LeftClick],
        ),
        tcp_reaction::<D>(held, TcpCommand::RightClick) == (
            held,
            seq![DeviceAction::<D>::RightClick],
        ),
        tcp_reaction::<D>(held, TcpCommand::DoubleClick) == (
            held,
            seq![DeviceAction::<D>::DoubleClick],
        ),
        tcp_reaction::<D>(held, TcpCommand::VolumeUp) == (
            held,
            seq![DeviceAction::<D>::VolumeUp],
        ),
        tcp_reaction::<D>(held, TcpCommand::VolumeDown) == (
            held,
            seq![DeviceAction::<D>::VolumeDown],
        ),
        forall|c: TcpCommand|
            #![trigger tcp_reaction::<D>(held, c)]
            plain_command_call::<D>(c) matches Some(a) ==> tcp_reaction::<D>(held, c) == (
                held,
                seq![a],
            ),
        forall|c: TcpCommand|
            c != TcpCommand::AltTabStart && c != TcpCommand::AltTabEnd ==> #[trigger] tcp_reaction::<
                D,
            >(true, c).1 == tcp_reaction::<D>(false, c).1,
{
}

} // verus!
