//! Composite Linux activation engine.
//!
//! [`LinuxActivationEngine`] first drives wpa_supplicant to bring the 802.11
//! link up, then runs the [`LinuxIpEngine`] to obtain IPv4/IPv6 configuration,
//! and it remembers the resulting [`ActiveIpState`] so deactivation tears
//! everything down again in the right order.
//!
//! If IP configuration fails after the link is up, the supplicant association
//! is rolled back so the device is not left half-configured.
//!
//! The links and addresses of the host are observed by the caller: the links
//! before [`LinuxActivationEngine::associate`], the addresses between
//! [`LinuxActivationEngine::configure_ipv4`] and
//! [`LinuxActivationEngine::configure_ipv6`].

use vstd::prelude::*;

use crate::connection::activation;
use crate::connection::activation::{ActivationEngine, ActivationError};
use crate::connection::device::DeviceInfo;
use crate::connection::ip::{
    ActivationOutcome, ActiveIpState, ActiveIpStateView, DhcpClient,
    DnsManager, IpConfigurator,
};
use crate::connection::profile::{ConnectionProfile, IpConfig, ProfileView};
use crate::connection::secrets::SecretProvider;
use crate::connection::supplicant_engine;
use crate::connection::supplicant_engine::WpaSupplicantActivationEngine;
use crate::linux::ip_engine;
use crate::linux::ip_engine::{
    resolve_interface_index, IpEngineError, Ipv4End, Ipv4Reached, LinuxIpEngine, Run, Trace,
};
use crate::linux::model::Link;
use crate::linux::supplicant::SupplicantControl;
use crate::net::Ipv6Addr;
use crate::text::{concat2, concat3, same_text};

verus! {

/// A stage of bringing a connection up or taking it down.
pub enum Stage {
    /// The link is brought up.
    LinkUp,
    /// IPv4 is configured.
    Ipv4Up,
    /// IPv6 is configured.
    Ipv6Up,
    /// The IP configuration is taken down.
    IpDown,
    /// The link is taken down.
    LinkDown,
}

/// A Linux activation engine: wpa_supplicant for the link, then IP.
pub struct LinuxActivationEngine<S, P, C, D, N> {
    pub supplicant: WpaSupplicantActivationEngine<S, P>,
    pub ip: LinuxIpEngine<C, D, N>,
    pub active: Option<(String, ActiveIpState)>,
    /// The stages so far, in the order they were entered.
    pub stages: Ghost<Seq<Stage>>,
}

/// The owner of the DNS configuration of a profile on an interface.
pub open spec fn dns_owner(id: Seq<char>, interface_name: Seq<char>) -> Seq<char> {
    "nmd/"@ + id + "/"@ + interface_name
}

/// Whether two failures make a result: none of them, one, or both.
pub open spec fn combines(
    result: Result<(), ActivationError>,
    ip: Result<(), IpEngineError>,
    link: Result<(), ActivationError>,
) -> bool {
    match (ip, link) {
        (Ok(_), Ok(_)) => result is Ok,
        (Err(first), Ok(_)) => supplicant_engine::refuses(result, first.text()),
        (Ok(_), Err(second)) => supplicant_engine::refuses(result, second.text()),
        (Err(first), Err(second)) => supplicant_engine::refuses(
            result,
            first.text() + " (and also "@ + second.text() + ")"@,
        ),
    }
}

/// The stages that follow a phase of a run: where it failed, the link is taken
/// down.
pub open spec fn rollback_stages(run: Run) -> Seq<Stage> {
    if run.error() is Some {
        seq![Stage::LinkDown]
    } else {
        Seq::empty()
    }
}

/// The stages of a run on a link that is up: IPv4, then IPv6 if that succeeded,
/// and where either failed the link is taken down.
pub open spec fn configuring_stages(run: Run) -> Seq<Stage> {
    seq![Stage::Ipv4Up] + (if run.end4.result is Ok {
        seq![Stage::Ipv6Up]
    } else {
        Seq::empty()
    }) + rollback_stages(run)
}

/// Whether an active connection belongs to a profile and has a state.
pub open spec fn is_active(
    active: Option<(String, ActiveIpState)>,
    id: Seq<char>,
    state: ActiveIpStateView,
) -> bool {
    active matches Some((active_id, active_state)) && active_id@ == id && active_state@ == state
}

impl<
    S: SupplicantControl,
    P: SecretProvider,
    C: IpConfigurator,
    D: DhcpClient,
    N: DnsManager,
> LinuxActivationEngine<S, P, C, D, N> {
    /// Whether bringing up the link of a device may be answered with `reply`
    /// and turn the engine into `after`.
    pub open spec fn may_associate(
        self,
        profile: ProfileView,
        device: DeviceInfo,
        links: Seq<Link>,
        reply: Result<i32, ActivationError>,
        after: Self,
    ) -> bool {
        if self.active is Some {
            after == self && supplicant_engine::refuses(
                reply,
                "an activation is already in progress"@,
            )
        } else {
            match ip_engine::index_named(links, device.interface_name@) {
                None => after == self && supplicant_engine::refuses(
                    reply,
                    IpEngineError::InterfaceNotFound(device.interface_name).text(),
                ),
                Some(index) => {
                    &&& after.ip == self.ip
                    &&& after.active is None
                    &&& after.stages@ == self.stages@.push(Stage::LinkUp)
                    &&& exists|answer: Result<ActivationOutcome, ActivationError>|
                        {
                            &&& #[trigger] self.supplicant.may_activate(
                                profile,
                                device@,
                                answer,
                                after.supplicant,
                            )
                            &&& match answer {
                                Ok(_) => reply == Ok::<i32, ActivationError>(index),
                                Err(e) => reply == Err::<i32, ActivationError>(e),
                            }
                        }
                },
            }
        }
    }

    /// Whether configuring IP in a run on a link that is up may be answered with
    /// `reply` and turn the engine into `after`.
    pub open spec fn configures(
        self,
        run: Run,
        profile: ProfileView,
        device: DeviceInfo,
        interface_index: i32,
        link_local: Option<Ipv6Addr>,
        reply: Result<ActivationOutcome, ActivationError>,
        after: Self,
    ) -> bool {
        &&& after.ip.log() == self.ip.log().plus(run.trace())
        &&& ip_engine::activates(
            run,
            interface_index,
            device.interface_name@,
            profile.ipv4,
            profile.ipv6,
            dns_owner(profile.id, device.interface_name@),
            link_local,
        )
        &&& after.stages@ == self.stages@ + configuring_stages(run)
        &&& match run.error() {
            None => {
                &&& after.supplicant == self.supplicant
                &&& is_active(after.active, profile.id, run.state())
                &&& reply matches Ok(outcome)
                &&& outcome@ == run.outcome()
            },
            Some(e) => {
                &&& after.active is None
                &&& supplicant_engine::refuses(reply, e.text())
                &&& exists|answer: Result<(), ActivationError>| #[trigger]
                    self.supplicant.may_deactivate(profile, answer, after.supplicant)
            },
        }
    }

    /// Whether the IPv4 phase of a run on a link that is up may be answered with
    /// `reply` and turn the engine into `after`.
    pub open spec fn opens(
        self,
        run: Run,
        profile: ProfileView,
        device: DeviceInfo,
        interface_index: i32,
        reply: Result<Ipv4Reached, ActivationError>,
        after: Self,
    ) -> bool {
        &&& after.ip.log() == self.ip.log().plus(run.trace())
        &&& ip_engine::opens(
            run,
            interface_index,
            device.interface_name@,
            profile.ipv4,
            dns_owner(profile.id, device.interface_name@),
        )
        &&& after.active is None
        &&& after.stages@ == self.stages@.push(Stage::Ipv4Up) + rollback_stages(run)
        &&& match run.error() {
            None => {
                &&& after.supplicant == self.supplicant
                &&& reply matches Ok(reached)
                &&& reached@ == run.end4
            },
            Some(e) => {
                &&& supplicant_engine::refuses(reply, e.text())
                &&& exists|answer: Result<(), ActivationError>| #[trigger]
                    self.supplicant.may_deactivate(profile, answer, after.supplicant)
            },
        }
    }

    /// Whether the IPv6 phase of a run, whose IPv4 phase ended in `reached`, may
    /// be answered with `reply` and turn the engine into `after`.
    pub open spec fn closes(
        self,
        run: Run,
        reached: Ipv4End,
        profile: ProfileView,
        interface_index: i32,
        link_local: Option<Ipv6Addr>,
        reply: Result<ActivationOutcome, ActivationError>,
        after: Self,
    ) -> bool {
        &&& after.ip.log() == self.ip.log().plus(run.trace())
        &&& ip_engine::closes(run, reached, interface_index, profile.ipv6, link_local)
        &&& after.stages@ == self.stages@.push(Stage::Ipv6Up) + rollback_stages(run)
        &&& match run.error() {
            None => {
                &&& after.supplicant == self.supplicant
                &&& is_active(after.active, profile.id, run.state())
                &&& reply matches Ok(outcome)
                &&& outcome@ == run.outcome()
            },
            Some(e) => {
                &&& after.active is None
                &&& supplicant_engine::refuses(reply, e.text())
                &&& exists|answer: Result<(), ActivationError>| #[trigger]
                    self.supplicant.may_deactivate(profile, answer, after.supplicant)
            },
        }
    }

    /// Whether configuring IP on a link that is up may be answered with `reply`
    /// and turn the engine into `after`.
    pub open spec fn may_configure(
        self,
        profile: ProfileView,
        device: DeviceInfo,
        interface_index: i32,
        link_local: Option<Ipv6Addr>,
        reply: Result<ActivationOutcome, ActivationError>,
        after: Self,
    ) -> bool {
        exists|run: Run| #[trigger]
            self.configures(run, profile, device, interface_index, link_local, reply, after)
    }

    /// Whether an engine took its connection down with the given calls to the
    /// IP components and the given answers.
    pub open spec fn takes_down(
        self,
        profile: ProfileView,
        trace: Trace,
        v4: int,
        ip_answer: Result<(), IpEngineError>,
        link_answer: Result<(), ActivationError>,
        reply: Result<(), ActivationError>,
        after: Self,
    ) -> bool {
        &&& self.active matches Some((id, state))
        &&& after.active is None
        &&& after.stages@ == self.stages@.push(Stage::IpDown).push(Stage::LinkDown)
        &&& after.ip.log() == self.ip.log().plus(trace)
        &&& ip_engine::tears_down(trace, v4, state@, ip_answer)
        &&& self.supplicant.may_deactivate(profile, link_answer, after.supplicant)
        &&& combines(reply, ip_answer, link_answer)
    }

    /// Whether deactivating a profile may be answered with `reply` and turn the
    /// engine into `after`.
    pub open spec fn may_deactivate(
        self,
        profile: ProfileView,
        reply: Result<(), ActivationError>,
        after: Self,
    ) -> bool {
        match self.active {
            None => after == self && supplicant_engine::refuses(
                reply,
                "there is no active connection to deactivate"@,
            ),
            Some((id, _)) => if id@ != profile.id {
                after == self && supplicant_engine::refuses(
                    reply,
                    "the active connection belongs to a different profile"@,
                )
            } else {
                exists|
                    trace: Trace,
                    v4: int,
                    ip_answer: Result<(), IpEngineError>,
                    link_answer: Result<(), ActivationError>,
                | #[trigger]
                    self.takes_down(profile, trace, v4, ip_answer, link_answer, reply, after)
            },
        }
    }

    /// Creates the engine with the default association timeout.
    pub fn new(control: S, secrets: P, ip: LinuxIpEngine<C, D, N>) -> (r: Self)
        ensures
            r.supplicant.control == control,
            r.supplicant.secrets == secrets,
            r.supplicant.timeout_millis == supplicant_engine::DEFAULT_ASSOCIATION_MILLIS,
            r.supplicant.active_network is None,
            r.ip == ip,
            r.active is None,
            r.stages@ == Seq::<Stage>::empty(),
    {
        LinuxActivationEngine {
            supplicant: WpaSupplicantActivationEngine::new(control, secrets),
            ip,
            active: None,
            stages: Ghost(Seq::empty()),
        }
    }

    /// Creates the engine with a custom IP engine and association timeout.
    pub fn with_components(
        control: S,
        secrets: P,
        ip: LinuxIpEngine<C, D, N>,
        timeout_millis: u64,
    ) -> (r: Self)
        ensures
            r.supplicant.control == control,
            r.supplicant.secrets == secrets,
            r.supplicant.timeout_millis == timeout_millis,
            r.supplicant.active_network is None,
            r.ip == ip,
            r.active is None,
            r.stages@ == Seq::<Stage>::empty(),
    {
        LinuxActivationEngine {
            supplicant: WpaSupplicantActivationEngine::with_timeout(
                control,
                secrets,
                timeout_millis,
            ),
            ip,
            active: None,
            stages: Ghost(Seq::empty()),
        }
    }

    // Each stage is performed in one of the functions below, together with its
    // entry in the order of stages.

    fn link_up(&mut self, profile: &ConnectionProfile, device: &DeviceInfo) -> (r: Result<
        ActivationOutcome,
        ActivationError,
    >)
        ensures
            old(self).supplicant.may_activate(profile@, device@, r, final(self).supplicant),
            final(self).ip == old(self).ip,
            final(self).active == old(self).active,
            final(self).stages@ == old(self).stages@.push(Stage::LinkUp),
    {
        self.stages = Ghost(self.stages@.push(Stage::LinkUp));
        self.supplicant.activate(profile, device)
    }

    fn link_down(&mut self, profile: &ConnectionProfile) -> (r: Result<(), ActivationError>)
        ensures
            old(self).supplicant.may_deactivate(profile@, r, final(self).supplicant),
            final(self).ip == old(self).ip,
            final(self).active == old(self).active,
            final(self).stages@ == old(self).stages@.push(Stage::LinkDown),
    {
        self.stages = Ghost(self.stages@.push(Stage::LinkDown));
        self.supplicant.deactivate(profile)
    }

    fn ipv4_up(
        &mut self,
        interface_index: i32,
        interface_name: &str,
        ipv4: &IpConfig,
        owner: &str,
    ) -> (r: Result<Ipv4Reached, IpEngineError>)
        ensures
            exists|run: Run|
                {
                    &&& final(self).ip.log() == old(self).ip.log().plus(run.trace())
                    &&& #[trigger] ip_engine::opens(
                        run,
                        interface_index,
                        interface_name@,
                        ipv4@,
                        owner@,
                    )
                    &&& match r {
                        Err(e) => run.error() == Some(e),
                        Ok(reached) => run.error() is None && reached@ == run.end4,
                    }
                },
            final(self).supplicant == old(self).supplicant,
            final(self).active == old(self).active,
            final(self).stages@ == old(self).stages@.push(Stage::Ipv4Up),
    {
        self.stages = Ghost(self.stages@.push(Stage::Ipv4Up));
        self.ip.activate_ipv4_phase(interface_index, interface_name, ipv4, owner)
    }

    fn ipv6_up(
        &mut self,
        reached: Ipv4Reached,
        interface_index: i32,
        ipv6: &IpConfig,
        link_local: Option<Ipv6Addr>,
    ) -> (r: Result<(ActivationOutcome, ActiveIpState), IpEngineError>)
        ensures
            exists|run: Run|
                {
                    &&& final(self).ip.log() == old(self).ip.log().plus(run.trace())
                    &&& #[trigger] ip_engine::closes(
                        run,
                        reached@,
                        interface_index,
                        ipv6@,
                        link_local,
                    )
                    &&& ip_engine::reports(run, r)
                },
            final(self).supplicant == old(self).supplicant,
            final(self).active == old(self).active,
            final(self).stages@ == old(self).stages@.push(Stage::Ipv6Up),
    {
        self.stages = Ghost(self.stages@.push(Stage::Ipv6Up));
        self.ip.activate_ipv6_phase(reached, interface_index, ipv6, link_local)
    }

    fn ip_down(&mut self, state: &ActiveIpState) -> (r: Result<(), IpEngineError>)
        ensures
            exists|trace: Trace, v4: int|
                {
                    &&& final(self).ip.log() == old(self).ip.log().plus(trace)
                    &&& #[trigger] ip_engine::tears_down(trace, v4, state@, r)
                },
            final(self).supplicant == old(self).supplicant,
            final(self).active == old(self).active,
            final(self).stages@ == old(self).stages@.push(Stage::IpDown),
    {
        self.stages = Ghost(self.stages@.push(Stage::IpDown));
        self.ip.teardown(state)
    }

    /// Brings the 802.11 link of a device up, and returns the index of its
    /// interface. `links` are the links of the host.
    pub fn associate(
        &mut self,
        profile: &ConnectionProfile,
        device: &DeviceInfo,
        links: &Vec<Link>,
    ) -> (r: Result<i32, ActivationError>)
        ensures
            old(self).may_associate(profile@, *device, links@, r, *final(self)),
    {
        if self.active.is_some() {
            return Err(
                ActivationError::Engine("an activation is already in progress".to_owned()),
            );
        }
        match resolve_interface_index(links, device.interface_name.as_str()) {
            Err(e) => Err(ActivationError::Engine(e.to_string())),
            Ok(index) => match self.link_up(profile, device) {
                Err(e) => Err(e),
                Ok(_) => Ok(index),
            },
        }
    }

    /// Configures IPv4 on a link that is up. What it reached goes to
    /// [`LinuxActivationEngine::configure_ipv6`]. If it fails, the link is taken
    /// down again.
    pub fn configure_ipv4(
        &mut self,
        profile: &ConnectionProfile,
        device: &DeviceInfo,
        interface_index: i32,
    ) -> (r: Result<Ipv4Reached, ActivationError>)
        requires
            old(self).active is None,
        ensures
            exists|run: Run| #[trigger]
                old(self).opens(run, profile@, *device, interface_index, r, *final(self)),
    {
        let ghost start = *self;
        let head: String = concat2("nmd/", profile.id.as_str());
        let owner: String = concat3(head.as_str(), "/", device.interface_name.as_str());
        let answer: Result<Ipv4Reached, IpEngineError> = self.ipv4_up(
            interface_index,
            device.interface_name.as_str(),
            &profile.ipv4,
            owner.as_str(),
        );
        let ghost run = choose|run: Run|
            {
                &&& self.ip.log() == start.ip.log().plus(run.trace())
                &&& #[trigger] ip_engine::opens(
                    run,
                    interface_index,
                    device.interface_name@,
                    profile.ipv4@,
                    owner@,
                )
                &&& match answer {
                    Err(e) => run.error() == Some(e),
                    Ok(reached) => run.error() is None && reached@ == run.end4,
                }
            };
        let reply: Result<Ipv4Reached, ActivationError> = match answer {
            Ok(reached) => Ok(reached),
            Err(e) => {
                let _ignored: Result<(), ActivationError> = self.link_down(profile);
                Err(ActivationError::Engine(e.to_string()))
            },
        };
        assert(self.stages@ =~= start.stages@.push(Stage::Ipv4Up) + rollback_stages(run));
        assert(start.opens(run, profile@, *device, interface_index, reply, *self));
        reply
    }

    /// Configures IPv6 on a link whose IPv4 phase reached `reached`. `link_local`
    /// is the address that the kernel has given the interface by now. If it fails,
    /// everything is removed and the link is taken down again.
    pub fn configure_ipv6(
        &mut self,
        profile: &ConnectionProfile,
        interface_index: i32,
        reached: Ipv4Reached,
        link_local: Option<Ipv6Addr>,
    ) -> (r: Result<ActivationOutcome, ActivationError>)
        requires
            old(self).active is None,
        ensures
            exists|run: Run| #[trigger]
                old(self).closes(
                    run,
                    reached@,
                    profile@,
                    interface_index,
                    link_local,
                    r,
                    *final(self),
                ),
    {
        let ghost start = *self;
        let answer: Result<(ActivationOutcome, ActiveIpState), IpEngineError> =
            self.ipv6_up(reached, interface_index, &profile.ipv6, link_local);
        let ghost run = choose|run: Run|
            {
                &&& self.ip.log() == start.ip.log().plus(run.trace())
                &&& #[trigger] ip_engine::closes(
                    run,
                    reached@,
                    interface_index,
                    profile.ipv6@,
                    link_local,
                )
                &&& ip_engine::reports(run, answer)
            };
        let reply: Result<ActivationOutcome, ActivationError> = match answer {
            Ok((outcome, state)) => {
                self.active = Some((profile.id.clone(), state));
                Ok(outcome)
            },
            Err(e) => {
                let _ignored: Result<(), ActivationError> = self.link_down(profile);
                Err(ActivationError::Engine(e.to_string()))
            },
        };
        assert(self.stages@ =~= start.stages@.push(Stage::Ipv6Up) + rollback_stages(run));
        assert(start.closes(
            run,
            reached@,
            profile@,
            interface_index,
            link_local,
            reply,
            *self,
        ));
        reply
    }

    /// Activates a profile on a device: the link first, since IP configuration
    /// depends on it, then IP.
    pub fn activate(
        &mut self,
        profile: &ConnectionProfile,
        device: &DeviceInfo,
        links: &Vec<Link>,
        link_local: Option<Ipv6Addr>,
    ) -> (r: Result<ActivationOutcome, ActivationError>)
        ensures
            exists|first: Result<i32, ActivationError>, middle: Self|
                {
                    &&& #[trigger] old(self).may_associate(profile@, *device, links@, first, middle)
                    &&& match first {
                        Err(e) => r == Err::<ActivationOutcome, ActivationError>(e)
                            && *final(self) == middle,
                        Ok(index) => middle.may_configure(
                            profile@,
                            *device,
                            index,
                            link_local,
                            r,
                            *final(self),
                        ),
                    }
                },
    {
        let first: Result<i32, ActivationError> = self.associate(profile, device, links);
        let index: i32 = match first {
            Err(e) => {
                return Err(e);
            },
            Ok(index) => index,
        };
        let ghost up = *self;
        let half: Result<Ipv4Reached, ActivationError> = self.configure_ipv4(
            profile,
            device,
            index,
        );
        let ghost opening = choose|run: Run| #[trigger]
            up.opens(run, profile@, *device, index, half, *self);
        let ghost middle = *self;
        match half {
            Err(e) => {
                proof {
                    lemma_failed_half_configures(
                        up,
                        profile@,
                        *device,
                        index,
                        link_local,
                        opening,
                        e,
                        middle,
                    );
                }
                Err(e)
            },
            Ok(reached) => {
                let r: Result<ActivationOutcome, ActivationError> = self.configure_ipv6(
                    profile,
                    index,
                    reached,
                    link_local,
                );
                proof {
                    let closing = choose|run: Run| #[trigger]
                        middle.closes(
                            run,
                            reached@,
                            profile@,
                            index,
                            link_local,
                            r,
                            *self,
                        );
                    lemma_halves_configure(
                        up,
                        profile@,
                        *device,
                        index,
                        link_local,
                        opening,
                        reached,
                        middle,
                        closing,
                        r,
                        *self,
                    );
                }
                r
            },
        }
    }

    /// Takes the active connection down, attempting the supplicant disconnect
    /// whatever the IP teardown answers.
    fn rollback(&mut self, profile: &ConnectionProfile) -> (r: Result<(), ActivationError>)
        requires
            old(self).active is Some,
        ensures
            exists|
                trace: Trace,
                v4: int,
                ip_answer: Result<(), IpEngineError>,
                link_answer: Result<(), ActivationError>,
            | #[trigger]
                old(self).takes_down(
                    profile@,
                    trace,
                    v4,
                    ip_answer,
                    link_answer,
                    r,
                    *final(self),
                ),
    {
        let ghost start = *self;
        let mut ip_answer: Result<(), IpEngineError> = Ok(());
        let ghost mut trace: Trace = Trace::nothing();
        let ghost mut v4: int = 0;
        if let Some((_, state)) = self.active.take() {
            let ghost before = self.ip;
            ip_answer = self.ip_down(&state);
            proof {
                let (torn, cut) = choose|torn: Trace, cut: int|
                    {
                        &&& self.ip.log() == before.log().plus(torn)
                        &&& #[trigger] ip_engine::tears_down(torn, cut, state@, ip_answer)
                    };
                trace = torn;
                v4 = cut;
            }
        }
        let link_answer: Result<(), ActivationError> = self.link_down(profile);
        let reply: Result<(), ActivationError> = match (&ip_answer, &link_answer) {
            (Ok(_), Ok(_)) => Ok(()),
            (Err(first), Ok(_)) => Err(ActivationError::Engine(first.to_string())),
            (Ok(_), Err(second)) => Err(ActivationError::Engine(second.to_string())),
            (Err(first), Err(second)) => {
                let head: String = concat2(first.to_string().as_str(), " (and also ");
                let reason: String = concat3(head.as_str(), second.to_string().as_str(), ")");
                Err(ActivationError::Engine(reason))
            },
        };
        assert(start.takes_down(profile@, trace, v4, ip_answer, link_answer, reply, *self));
        reply
    }

    /// Deactivates the active connection of a profile.
    pub fn deactivate(&mut self, profile: &ConnectionProfile) -> (r: Result<(), ActivationError>)
        ensures
            old(self).may_deactivate(profile@, r, *final(self)),
    {
        match &self.active {
            None => {
                return Err(
                    ActivationError::Engine(
                        "there is no active connection to deactivate".to_owned(),
                    ),
                );
            },
            Some((id, _)) => {
                if !same_text(id.as_str(), profile.id.as_str()) {
                    return Err(
                        ActivationError::Engine(
                            "the active connection belongs to a different profile".to_owned(),
                        ),
                    );
                }
            },
        }
        self.rollback(profile)
    }
}

// --- Laws ---------------------------------------------------------------------------------------

/// An IPv4 phase that fails is a whole configuration that fails, whatever the
/// address of the interface is.
pub proof fn lemma_failed_half_configures<
    S: SupplicantControl,
    P: SecretProvider,
    C: IpConfigurator,
    D: DhcpClient,
    N: DnsManager,
>(
    engine: LinuxActivationEngine<S, P, C, D, N>,
    profile: ProfileView,
    device: DeviceInfo,
    index: i32,
    link_local: Option<Ipv6Addr>,
    run: Run,
    error: ActivationError,
    after: LinuxActivationEngine<S, P, C, D, N>,
)
    requires
        engine.opens(run, profile, device, index, Err(error), after),
    ensures
        engine.configures(run, profile, device, index, link_local, Err(error), after),
{
    assert(engine.stages@.push(Stage::Ipv4Up) + rollback_stages(run) =~= engine.stages@
        + configuring_stages(run));
    ip_engine::lemma_halves_activate(
        run,
        run,
        index,
        device.interface_name@,
        profile.ipv4,
        profile.ipv6,
        dns_owner(profile.id, device.interface_name@),
        link_local,
    );
}

/// An IPv4 phase that succeeds and the IPv6 phase after it are a whole
/// configuration.
pub proof fn lemma_halves_configure<
    S: SupplicantControl,
    P: SecretProvider,
    C: IpConfigurator,
    D: DhcpClient,
    N: DnsManager,
>(
    engine: LinuxActivationEngine<S, P, C, D, N>,
    profile: ProfileView,
    device: DeviceInfo,
    index: i32,
    link_local: Option<Ipv6Addr>,
    first: Run,
    reached: Ipv4Reached,
    middle: LinuxActivationEngine<S, P, C, D, N>,
    second: Run,
    reply: Result<ActivationOutcome, ActivationError>,
    after: LinuxActivationEngine<S, P, C, D, N>,
)
    requires
        engine.opens(first, profile, device, index, Ok(reached), middle),
        middle.closes(second, reached@, profile, index, link_local, reply, after),
    ensures
        engine.configures(
            ip_engine::joined(first, second),
            profile,
            device,
            index,
            link_local,
            reply,
            after,
        ),
{
    ip_engine::lemma_halves_activate(
        first,
        second,
        index,
        device.interface_name@,
        profile.ipv4,
        profile.ipv6,
        dns_owner(profile.id, device.interface_name@),
        link_local,
    );
    let run = ip_engine::joined(first, second);
    assert(engine.ip.log().plus(first.trace()).plus(second.trace()) =~= engine.ip.log().plus(
        run.trace(),
    ));
    assert(run.outcome() == second.outcome());
    assert(middle.stages@ =~= engine.stages@.push(Stage::Ipv4Up));
    assert(after.stages@ =~= engine.stages@ + configuring_stages(run));
}

/// A device is never left half-configured: when the link came up and IP
/// configuration failed, everything that was installed is removed, the engine
/// is free again, and the last call to the supplicant removes the network that
/// was added.
pub proof fn lemma_never_half_configured<
    S: SupplicantControl,
    P: SecretProvider,
    C: IpConfigurator,
    D: DhcpClient,
    N: DnsManager,
>(
    engine: LinuxActivationEngine<S, P, C, D, N>,
    profile: ProfileView,
    device: DeviceInfo,
    links: Seq<Link>,
    index: i32,
    middle: LinuxActivationEngine<S, P, C, D, N>,
    run: Run,
    link_local: Option<Ipv6Addr>,
    error: ActivationError,
    after: LinuxActivationEngine<S, P, C, D, N>,
)
    requires
        engine.may_associate(profile, device, links, Ok(index), middle),
        middle.configures(run, profile, device, index, link_local, Err(error), after),
    ensures
        ip_engine::all_undone(run.up4, run.down),
        ip_engine::all_undone(run.up6, run.down),
        after.ip.log() == engine.ip.log().plus(run.up4).plus(run.up6).plus(run.down),
        after.active is None,
        after.supplicant.active_network is None,
        middle.supplicant.active_network is Some,
        after.supplicant.control.history().last() is Remove,
        after.supplicant.control.history().last()->Remove_path == supplicant_engine::network_path(
            middle.supplicant.active_network->0,
        ),
{
    ip_engine::lemma_failed_activation_undone(
        run,
        index,
        device.interface_name@,
        profile.ipv4,
        profile.ipv6,
        dns_owner(profile.id, device.interface_name@),
        link_local,
    );
    let base = engine.ip.log();
    assert(base.plus(run.trace()) =~= base.plus(run.up4).plus(run.up6).plus(run.down));
    let answer = choose|answer: Result<ActivationOutcome, ActivationError>|
        {
            &&& #[trigger] engine.supplicant.may_activate(
                profile,
                device@,
                answer,
                middle.supplicant,
            )
            &&& answer is Ok
        };
    let ended = choose|ended: Result<(), ActivationError>| #[trigger]
        middle.supplicant.may_deactivate(profile, ended, after.supplicant);
    supplicant_engine::lemma_deactivation_frees(
        engine.supplicant,
        profile,
        device@,
        answer->Ok_0,
        middle.supplicant,
        ended,
        after.supplicant,
    );
}

/// Deactivating a connection removes everything that its activation installed,
/// and frees the engine, whatever the components answer.
pub proof fn lemma_deactivation_undoes_activation<
    S: SupplicantControl,
    P: SecretProvider,
    C: IpConfigurator,
    D: DhcpClient,
    N: DnsManager,
>(
    engine: LinuxActivationEngine<S, P, C, D, N>,
    profile: ProfileView,
    device: DeviceInfo,
    index: i32,
    link_local: Option<Ipv6Addr>,
    run: Run,
    outcome: ActivationOutcome,
    active: LinuxActivationEngine<S, P, C, D, N>,
    down: Trace,
    v4: int,
    ip_answer: Result<(), IpEngineError>,
    link_answer: Result<(), ActivationError>,
    reply: Result<(), ActivationError>,
    after: LinuxActivationEngine<S, P, C, D, N>,
)
    requires
        engine.configures(run, profile, device, index, link_local, Ok(outcome), active),
        active.takes_down(profile, down, v4, ip_answer, link_answer, reply, after),
    ensures
        ip_engine::all_undone(run.up4, down),
        ip_engine::all_undone(run.up6, down),
        after.active is None,
{
    ip_engine::lemma_teardown_undoes_activation(
        run,
        index,
        device.interface_name@,
        profile.ipv4,
        profile.ipv6,
        dns_owner(profile.id, device.interface_name@),
        link_local,
        down,
        v4,
        ip_answer,
    );
}

} // verus!
