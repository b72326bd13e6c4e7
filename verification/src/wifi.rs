//! The connection-lifecycle state machine of the wireless link.
//!
//! Bringing the link up means: validate the credentials, scan for the
//! configured access point, apply a client configuration and start the radio,
//! poll a "started" predicate against a wall-clock deadline, associate, and
//! poll an "associated and address assigned" predicate against a second
//! deadline.  The radio itself lives outside the library; a driver performs
//! the scan and the polls and feeds each outcome back as a [`LinkEvent`].
//! Every decision — which auth method, which channel, when to give up — is
//! taken here, by [`connect_begin`] and [`step`], and is verified against the
//! specification-level machine [`spec_step`].
use vstd::prelude::*;

use crate::error::Error;

verus! {

/// Milliseconds the radio is given to report "started".
pub const WIFI_START_TIMEOUT_MS: u64 = 20000;

/// Milliseconds the radio is given to associate and obtain a non-zero
/// address.
pub const WIFI_DHCP_TIMEOUT_MS: u64 = 20000;

/// The authentication method applied when associating.
#[derive(Clone, Copy, Debug, PartialEq, Eq, Structural)]
pub enum AuthMethod {
    /// Open network, no authentication.
    Open,
    /// WPA2-Personal with a pre-shared key.
    Wpa2Personal,
}

/// An IPv4 address as four plain octets.
#[derive(Clone, Copy, Debug, PartialEq, Eq, Structural)]
pub struct Ipv4 {
    pub a: u8,
    pub b: u8,
    pub c: u8,
    pub d: u8,
}

impl Ipv4 {
    /// Whether this is the all-zero address `0.0.0.0`, the value the
    /// interface reports while no lease has been obtained.
    pub open spec fn spec_is_unspecified(self) -> bool {
        self.a == 0 && self.b == 0 && self.c == 0 && self.d == 0
    }

    pub fn new(a: u8, b: u8, c: u8, d: u8) -> (r: Ipv4)
        ensures
            r == (Ipv4 { a, b, c, d }),
    {
        Ipv4 { a, b, c, d }
    }

    pub fn is_unspecified(&self) -> (r: bool)
        ensures
            r == self.spec_is_unspecified(),
    {
        self.a == 0 && self.b == 0 && self.c == 0 && self.d == 0
    }
}

/// One access point seen during a scan: its network name and channel.
#[derive(Clone, Debug)]
pub struct ApInfo {
    pub ssid: String,
    pub channel: u8,
}

/// Specification-level image of [`ApInfo`].
pub struct ApInfoV {
    pub ssid: Seq<char>,
    pub channel: u8,
}

impl View for ApInfo {
    type V = ApInfoV;

    open spec fn view(&self) -> ApInfoV {
        ApInfoV { ssid: self.ssid@, channel: self.channel }
    }
}

impl DeepView for ApInfo {
    type V = ApInfoV;

    open spec fn deep_view(&self) -> ApInfoV {
        self.view()
    }
}

/// The client configuration handed to the radio before it is started.
#[derive(Clone, Debug)]
pub struct ClientConfig {
    pub ssid: String,
    pub password: String,
    /// Channel to lock the association to; absent when the scan did not see
    /// the configured network, which lets the radio search all channels.
    pub channel: Option<u8>,
    pub auth_method: AuthMethod,
}

/// Specification-level image of [`ClientConfig`].
pub struct ClientConfigV {
    pub ssid: Seq<char>,
    pub password: Seq<char>,
    pub channel: Option<u8>,
    pub auth_method: AuthMethod,
}

impl View for ClientConfig {
    type V = ClientConfigV;

    open spec fn view(&self) -> ClientConfigV {
        ClientConfigV {
            ssid: self.ssid@,
            password: self.password@,
            channel: self.channel,
            auth_method: self.auth_method,
        }
    }
}

/// Where the link stands.  A failure at any stage is final: no transition
/// leaves [`LinkState::Failed`].
#[derive(Clone, Debug)]
pub enum LinkState {
    /// Credentials validated; the driver should scan.
    ScanPending { ssid: String, password: String, auth_method: AuthMethod },
    /// Configuration chosen; the driver should apply it, start the radio and
    /// poll the "started" predicate until the deadline.
    StartPending { config: ClientConfig, deadline_ms: u64 },
    /// The radio started; the driver should request association and poll the
    /// "associated with a non-zero address" predicate until the deadline.
    AddressPending { deadline_ms: u64 },
    /// The link is up with the given address.
    Connected { ip: Ipv4 },
    /// Bring-up failed; the error is fatal at this layer.
    Failed { error: Error },
}

/// Specification-level image of [`LinkState`].
pub enum LinkStateV {
    ScanPending { ssid: Seq<char>, password: Seq<char>, auth_method: AuthMethod },
    StartPending { config: ClientConfigV, deadline_ms: u64 },
    AddressPending { deadline_ms: u64 },
    Connected { ip: Ipv4 },
    Failed { error: Error },
}

impl View for LinkState {
    type V = LinkStateV;

    open spec fn view(&self) -> LinkStateV {
        match self {
            LinkState::ScanPending { ssid, password, auth_method } => LinkStateV::ScanPending {
                ssid: ssid@,
                password: password@,
                auth_method: *auth_method,
            },
            LinkState::StartPending { config, deadline_ms } => LinkStateV::StartPending {
                config: config@,
                deadline_ms: *deadline_ms,
            },
            LinkState::AddressPending { deadline_ms } => LinkStateV::AddressPending {
                deadline_ms: *deadline_ms,
            },
            LinkState::Connected { ip } => LinkStateV::Connected { ip: *ip },
            LinkState::Failed { error } => LinkStateV::Failed { error: *error },
        }
    }
}

/// What the driver observed: the outcome of a scan or of one poll of a radio
/// predicate, each stamped with the wall clock in milliseconds.
#[derive(Clone, Debug)]
pub enum LinkEvent {
    ScanDone { access_points: Vec<ApInfo>, now_ms: u64 },
    StartedPoll { started: bool, now_ms: u64 },
    AddressPoll { associated: bool, ip: Ipv4, now_ms: u64 },
}

/// Specification-level image of [`LinkEvent`].
pub enum LinkEventV {
    ScanDone { access_points: Seq<ApInfoV>, now_ms: u64 },
    StartedPoll { started: bool, now_ms: u64 },
    AddressPoll { associated: bool, ip: Ipv4, now_ms: u64 },
}

impl View for LinkEvent {
    type V = LinkEventV;

    open spec fn view(&self) -> LinkEventV {
        match self {
            LinkEvent::ScanDone { access_points, now_ms } => LinkEventV::ScanDone {
                access_points: access_points.deep_view(),
                now_ms: *now_ms,
            },
            LinkEvent::StartedPoll { started, now_ms } => LinkEventV::StartedPoll {
                started: *started,
                now_ms: *now_ms,
            },
            LinkEvent::AddressPoll { associated, ip, now_ms } => LinkEventV::AddressPoll {
                associated: *associated,
                ip: *ip,
                now_ms: *now_ms,
            },
        }
    }
}

/// The auth method chosen for a password: open exactly when the password is
/// empty, WPA2-Personal otherwise.
pub open spec fn chosen_auth(password: Seq<char>) -> AuthMethod {
    if password.len() == 0 {
        AuthMethod::Open
    } else {
        AuthMethod::Wpa2Personal
    }
}

/// The channel of the first scan entry whose name equals `ssid` exactly;
/// `None` when no entry matches.
pub open spec fn chan_of(access_points: Seq<ApInfoV>, ssid: Seq<char>) -> Option<u8>
    decreases access_points.len(),
{
    if access_points.len() == 0 {
        Option::None
    } else if access_points[0].ssid == ssid {
        Option::Some(access_points[0].channel)
    } else {
        chan_of(access_points.drop_first(), ssid)
    }
}

/// `now + timeout`, saturating at the top of the clock's range.
pub open spec fn sat_add(now_ms: u64, timeout_ms: u64) -> u64 {
    if now_ms + timeout_ms <= u64::MAX {
        (now_ms + timeout_ms) as u64
    } else {
        u64::MAX
    }
}

/// The transition relation of the link.  An event that does not belong to
/// the current stage leaves the state unchanged; in particular no event
/// leaves `Failed` or `Connected`.
pub open spec fn spec_step(st: LinkStateV, ev: LinkEventV) -> LinkStateV {
    match (st, ev) {
        (
            LinkStateV::ScanPending { ssid, password, auth_method },
            LinkEventV::ScanDone { access_points, now_ms },
        ) => LinkStateV::StartPending {
            config: ClientConfigV {
                ssid: ssid,
                password: password,
                channel: chan_of(access_points, ssid),
                auth_method: auth_method,
            },
            deadline_ms: sat_add(now_ms, WIFI_START_TIMEOUT_MS),
        },
        (
            LinkStateV::StartPending { config, deadline_ms },
            LinkEventV::StartedPoll { started, now_ms },
        ) => {
            if started {
                LinkStateV::AddressPending { deadline_ms: sat_add(now_ms, WIFI_DHCP_TIMEOUT_MS) }
            } else if now_ms >= deadline_ms {
                LinkStateV::Failed { error: Error::WifiStartTimeout }
            } else {
                LinkStateV::StartPending { config, deadline_ms }
            }
        },
        (
            LinkStateV::AddressPending { deadline_ms },
            LinkEventV::AddressPoll { associated, ip, now_ms },
        ) => {
            if associated && !ip.spec_is_unspecified() {
                LinkStateV::Connected { ip }
            } else if now_ms >= deadline_ms {
                LinkStateV::Failed { error: Error::WifiDhcpTimeout }
            } else {
                LinkStateV::AddressPending { deadline_ms }
            }
        },
        (other, _) => other,
    }
}

/// The state after feeding a whole sequence of events, first event first.
pub open spec fn run(st: LinkStateV, events: Seq<LinkEventV>) -> LinkStateV
    decreases events.len(),
{
    if events.len() == 0 {
        st
    } else {
        run(spec_step(st, events[0]), events.drop_first())
    }
}

/// Entry point of the bring-up: validates the credentials and chooses the
/// auth method.  Fails — before any scan can be requested, since only an
/// `Ok` state directs the driver to scan — exactly when `ssid` is empty;
/// an empty password selects an open network instead of failing.
pub fn connect_begin(ssid: String, password: String) -> (r: Result<LinkState, Error>)
    ensures
        ssid@.len() == 0 <==> r is Err,
        r matches Err(e) ==> e == Error::MissingWifiName,
        r matches Ok(st) ==> st@ == (LinkStateV::ScanPending {
            ssid: ssid@,
            password: password@,
            auth_method: chosen_auth(password@),
        }),
{
    if ssid.as_str().is_empty() {
        return Err(Error::MissingWifiName);
    }
    let auth_method = if password.as_str().is_empty() {
        AuthMethod::Open
    } else {
        AuthMethod::Wpa2Personal
    };
    Ok(LinkState::ScanPending { ssid, password, auth_method })
}

/// `now + timeout`, saturating instead of wrapping.
pub fn deadline_after(now_ms: u64, timeout_ms: u64) -> (r: u64)
    ensures
        r == sat_add(now_ms, timeout_ms),
{
    if now_ms <= u64::MAX - timeout_ms {
        now_ms + timeout_ms
    } else {
        u64::MAX
    }
}

/// When no scan entry's name equals `ssid`, the chosen channel is absent —
/// never defaulted to a fabricated value.
pub proof fn lemma_chan_of_no_match(access_points: Seq<ApInfoV>, ssid: Seq<char>)
    requires
        forall|j: int| 0 <= j < access_points.len() ==> access_points[j].ssid != ssid,
    ensures
        chan_of(access_points, ssid) is None,
    decreases access_points.len(),
{
    if access_points.len() > 0 {
        lemma_chan_of_no_match(access_points.drop_first(), ssid);
    }
}

/// Matching is exact string equality on the network name, and the first
/// matching entry — scan order decides a tie — supplies the channel.
pub proof fn lemma_chan_of_first_match(access_points: Seq<ApInfoV>, ssid: Seq<char>, i: int)
    requires
        0 <= i < access_points.len(),
        access_points[i].ssid == ssid,
        forall|j: int| 0 <= j < i ==> access_points[j].ssid != ssid,
    ensures
        chan_of(access_points, ssid) == Some(access_points[i].channel),
    decreases i,
{
    if i > 0 {
        lemma_chan_of_first_match(access_points.drop_first(), ssid, i - 1);
    }
}

/// Scan-result matching: the channel of the first entry whose name equals
/// `ssid`, or `None` — never a fabricated value — when no entry matches.
pub fn select_channel(access_points: &Vec<ApInfo>, ssid: &String) -> (r: Option<u8>)
    ensures
        r == chan_of(access_points.deep_view(), ssid@),
{
    let ghost aps = access_points.deep_view();
    let mut i: usize = 0;
    while i < access_points.len()
        invariant
            0 <= i <= access_points.len(),
            aps == access_points.deep_view(),
            aps.len() == access_points.len(),
            forall|j: int| 0 <= j < i ==> aps[j].ssid != ssid@,
        decreases access_points.len() - i,
    {
        if access_points[i].ssid == *ssid {
            proof {
                assert(aps[i as int] == access_points@[i as int].deep_view());
                lemma_chan_of_first_match(aps, ssid@, i as int);
            }
            return Some(access_points[i].channel);
        }
        proof {
            assert(aps[i as int] == access_points@[i as int].deep_view());
        }
        i = i + 1;
    }
    proof {
        lemma_chan_of_no_match(aps, ssid@);
    }
    None
}

/// Failure is final: from a failed state, every event sequence — and every
/// prefix of it — leaves the state exactly as it is.  There is no retry and
/// no transition back.
pub proof fn lemma_run_failed(st: LinkStateV, events: Seq<LinkEventV>)
    requires
        st is Failed,
    ensures
        forall|i: int| 0 <= i <= events.len() ==> run(st, #[trigger] events.take(i)) == st,
    decreases events.len(),
{
    if events.len() > 0 {
        lemma_run_failed(st, events.drop_first());
        assert forall|i: int| 0 <= i <= events.len() implies run(st, #[trigger] events.take(i))
            == st by {
            if i >= 1 {
                lemma_run_take_unfold(st, events, i);
            } else {
                assert(events.take(0) =~= Seq::<LinkEventV>::empty());
            }
        }
    } else {
        assert(events.take(0) =~= Seq::<LinkEventV>::empty());
    }
}

proof fn lemma_run_take_unfold(st: LinkStateV, events: Seq<LinkEventV>, i: int)
    requires
        1 <= i <= events.len(),
    ensures
        run(st, events.take(i)) == run(spec_step(st, events[0]), events.drop_first().take(i - 1)),
{
    assert(events.take(i)[0] == events[0]);
    assert(events.take(i).drop_first() =~= events.drop_first().take(i - 1));
}

/// A connected state always carries a usable address: if the run did not
/// start out connected to the all-zero address, it can only reach
/// `Connected` through an address poll whose address was non-zero.
pub proof fn lemma_connected_has_address(st: LinkStateV, events: Seq<LinkEventV>)
    requires
        st matches LinkStateV::Connected { ip } ==> !ip.spec_is_unspecified(),
    ensures
        run(st, events) matches LinkStateV::Connected { ip } ==> !ip.spec_is_unspecified(),
    decreases events.len(),
{
    if events.len() > 0 {
        lemma_connected_has_address(spec_step(st, events[0]), events.drop_first());
    }
}

/// If every poll of the "started" predicate reports false, the link never
/// associates: every state along the run is still the same waiting state, or
/// has failed with the start-timeout error — never `AddressPending` or
/// `Connected`.  And as soon as some such poll arrives at or past the
/// deadline, the run has failed with exactly that error.
pub proof fn lemma_start_timeout_no_association(st: LinkStateV, events: Seq<LinkEventV>)
    requires
        st is StartPending,
        forall|i: int|
            0 <= i < events.len() ==> (#[trigger] events[i] matches LinkEventV::StartedPoll {
                started,
                ..
            } && !started),
    ensures
        forall|i: int|
            0 <= i <= events.len() ==> run(st, #[trigger] events.take(i)) == st || run(
                st,
                events.take(i),
            ) == (LinkStateV::Failed { error: Error::WifiStartTimeout }),
        (exists|i: int|
            0 <= i < events.len() && (#[trigger] events[i])->StartedPoll_now_ms
                >= st->StartPending_deadline_ms) ==> run(st, events) == (LinkStateV::Failed {
            error: Error::WifiStartTimeout,
        }),
    decreases events.len(),
{
    if events.len() == 0 {
        assert(events.take(0) =~= Seq::<LinkEventV>::empty());
    } else {
        let e = events[0];
        let st1 = spec_step(st, e);
        assert(events =~= events.take(events.len() as int));
        if st1 is Failed {
            assert(st1 == (LinkStateV::Failed { error: Error::WifiStartTimeout }));
            lemma_run_failed(st1, events.drop_first());
            let rest = events.drop_first();
            assert(rest.take(rest.len() as int) =~= rest);
            assert(run(st1, rest.take(rest.len() as int)) == st1);
            assert(run(st, events) == run(st1, rest));
            assert forall|i: int|
                0 <= i <= events.len() implies run(st, #[trigger] events.take(i)) == st || run(
                st,
                events.take(i),
            ) == (LinkStateV::Failed { error: Error::WifiStartTimeout }) by {
                if i >= 1 {
                    lemma_run_take_unfold(st, events, i);
                } else {
                    assert(events.take(0) =~= Seq::<LinkEventV>::empty());
                }
            }
        } else {
            assert(st1 == st);
            lemma_start_timeout_no_association(st, events.drop_first());
            assert forall|i: int|
                0 <= i <= events.len() implies run(st, #[trigger] events.take(i)) == st || run(
                st,
                events.take(i),
            ) == (LinkStateV::Failed { error: Error::WifiStartTimeout }) by {
                if i >= 1 {
                    lemma_run_take_unfold(st, events, i);
                } else {
                    assert(events.take(0) =~= Seq::<LinkEventV>::empty());
                }
            }
            if exists|i: int|
                0 <= i < events.len() && (#[trigger] events[i])->StartedPoll_now_ms
                    >= st->StartPending_deadline_ms {
                let i = choose|i: int|
                    0 <= i < events.len() && (#[trigger] events[i])->StartedPoll_now_ms
                        >= st->StartPending_deadline_ms;
                let rest = events.drop_first();
                assert(i >= 1);
                assert(rest[i - 1] == events[i]);
                assert(0 <= i - 1 < rest.len() && (rest[i - 1])->StartedPoll_now_ms
                    >= st->StartPending_deadline_ms);
                assert(run(st, rest) == (LinkStateV::Failed { error: Error::WifiStartTimeout }));
                assert(run(st, events) == run(st1, rest));
            }
        }
    }
}

/// If every poll of the "associated and address assigned" predicate reports
/// the association missing or the address still all-zero, the link never
/// comes up: every state along the run is still the same waiting state, or
/// has failed with the DHCP-lease error — never `Connected`.  And as soon as
/// some such poll arrives at or past the deadline, the run has failed with
/// exactly that error.
pub proof fn lemma_dhcp_timeout_no_connection(st: LinkStateV, events: Seq<LinkEventV>)
    requires
        st is AddressPending,
        forall|i: int|
            0 <= i < events.len() ==> (#[trigger] events[i] matches LinkEventV::AddressPoll {
                associated,
                ip,
                ..
            } && !(associated && !ip.spec_is_unspecified())),
    ensures
        forall|i: int|
            0 <= i <= events.len() ==> run(st, #[trigger] events.take(i)) == st || run(
                st,
                events.take(i),
            ) == (LinkStateV::Failed { error: Error::WifiDhcpTimeout }),
        (exists|i: int|
            0 <= i < events.len() && (#[trigger] events[i])->AddressPoll_now_ms
                >= st->AddressPending_deadline_ms) ==> run(st, events) == (LinkStateV::Failed {
            error: Error::WifiDhcpTimeout,
        }),
    decreases events.len(),
{
    if events.len() == 0 {
        assert(events.take(0) =~= Seq::<LinkEventV>::empty());
    } else {
        let e = events[0];
        let st1 = spec_step(st, e);
        assert(events =~= events.take(events.len() as int));
        if st1 is Failed {
            assert(st1 == (LinkStateV::Failed { error: Error::WifiDhcpTimeout }));
            lemma_run_failed(st1, events.drop_first());
            let rest = events.drop_first();
            assert(rest.take(rest.len() as int) =~= rest);
            assert(run(st1, rest.take(rest.len() as int)) == st1);
            assert(run(st, events) == run(st1, rest));
            assert forall|i: int|
                0 <= i <= events.len() implies run(st, #[trigger] events.take(i)) == st || run(
                st,
                events.take(i),
            ) == (LinkStateV::Failed { error: Error::WifiDhcpTimeout }) by {
                if i >= 1 {
                    lemma_run_take_unfold(st, events, i);
                } else {
                    assert(events.take(0) =~= Seq::<LinkEventV>::empty());
                }
            }
        } else {
            assert(st1 == st);
            lemma_dhcp_timeout_no_connection(st, events.drop_first());
            assert forall|i: int|
                0 <= i <= events.len() implies run(st, #[trigger] events.take(i)) == st || run(
                st,
                events.take(i),
            ) == (LinkStateV::Failed { error: Error::WifiDhcpTimeout }) by {
                if i >= 1 {
                    lemma_run_take_unfold(st, events, i);
                } else {
                    assert(events.take(0) =~= Seq::<LinkEventV>::empty());
                }
            }
            if exists|i: int|
                0 <= i < events.len() && (#[trigger] events[i])->AddressPoll_now_ms
                    >= st->AddressPending_deadline_ms {
                let i = choose|i: int|
                    0 <= i < events.len() && (#[trigger] events[i])->AddressPoll_now_ms
                        >= st->AddressPending_deadline_ms;
                let rest = events.drop_first();
                assert(i >= 1);
                assert(rest[i - 1] == events[i]);
                assert(0 <= i - 1 < rest.len() && (rest[i - 1])->AddressPoll_now_ms
                    >= st->AddressPending_deadline_ms);
                assert(run(st, rest) == (LinkStateV::Failed { error: Error::WifiDhcpTimeout }));
                assert(run(st, events) == run(st1, rest));
            }
        }
    }
}

/// A cooperative radio connects: from freshly validated credentials, a scan
/// report, a poll that sees the radio started and a poll that sees the
/// association with a non-zero address bring the link up with exactly that
/// address — whatever the scan returned and whenever the polls arrive.
pub proof fn lemma_cooperative_radio_connects(
    ssid: Seq<char>,
    password: Seq<char>,
    auth_method: AuthMethod,
    access_points: Seq<ApInfoV>,
    t0: u64,
    t1: u64,
    t2: u64,
    ip: Ipv4,
)
    requires
        !ip.spec_is_unspecified(),
    ensures
        run(
            LinkStateV::ScanPending { ssid, password, auth_method },
            seq![
                LinkEventV::ScanDone { access_points, now_ms: t0 },
                LinkEventV::StartedPoll { started: true, now_ms: t1 },
                LinkEventV::AddressPoll { associated: true, ip, now_ms: t2 },
            ],
        ) == (LinkStateV::Connected { ip }),
{
    let st0 = LinkStateV::ScanPending { ssid, password, auth_method };
    let evs = seq![
        LinkEventV::ScanDone { access_points, now_ms: t0 },
        LinkEventV::StartedPoll { started: true, now_ms: t1 },
        LinkEventV::AddressPoll { associated: true, ip, now_ms: t2 },
    ];
    let st1 = spec_step(st0, evs[0]);
    let st2 = spec_step(st1, evs.drop_first()[0]);
    let st3 = spec_step(st2, evs.drop_first().drop_first()[0]);
    assert(st1 is StartPending);
    assert(st2 is AddressPending);
    assert(st3 == (LinkStateV::Connected { ip }));
    assert(evs.drop_first().drop_first().drop_first().len() == 0);
    assert(run(st0, evs) == run(st1, evs.drop_first()));
    assert(run(st1, evs.drop_first()) == run(st2, evs.drop_first().drop_first()));
    assert(run(st2, evs.drop_first().drop_first()) == run(
        st3,
        evs.drop_first().drop_first().drop_first(),
    ));
    assert(run(st3, evs.drop_first().drop_first().drop_first()) == st3);
}

/// One transition of the link: feeds a driver observation to the machine.
/// The result is exactly what the specification-level machine prescribes.
pub fn step(st: LinkState, ev: LinkEvent) -> (r: LinkState)
    ensures
        r@ == spec_step(st@, ev@),
{
    match (st, ev) {
        (
            LinkState::ScanPending { ssid, password, auth_method },
            LinkEvent::ScanDone { access_points, now_ms },
        ) => {
            let channel = select_channel(&access_points, &ssid);
            LinkState::StartPending {
                config: ClientConfig { ssid, password, channel, auth_method },
                deadline_ms: deadline_after(now_ms, WIFI_START_TIMEOUT_MS),
            }
        },
        (
            LinkState::StartPending { config, deadline_ms },
            LinkEvent::StartedPoll { started, now_ms },
        ) => {
            if started {
                LinkState::AddressPending {
                    deadline_ms: deadline_after(now_ms, WIFI_DHCP_TIMEOUT_MS),
                }
            } else if now_ms >= deadline_ms {
                LinkState::Failed { error: Error::WifiStartTimeout }
            } else {
                LinkState::StartPending { config, deadline_ms }
            }
        },
        (
            LinkState::AddressPending { deadline_ms },
            LinkEvent::AddressPoll { associated, ip, now_ms },
        ) => {
            if associated && !ip.is_unspecified() {
                LinkState::Connected { ip }
            } else if now_ms >= deadline_ms {
                LinkState::Failed { error: Error::WifiDhcpTimeout }
            } else {
                LinkState::AddressPending { deadline_ms }
            }
        },
        (other, _) => other,
    }
}

} // verus!
