//! Orchestration of one availability request: validate the request,
//! read the vendor's cached session, log in again on a miss (one retry,
//! authentication failure being the one fatal outcome), and dispatch to
//! the vendor's query protocol with the session's cookie header.

use vstd::prelude::*;
use crate::request::{AvailabilityRequest, opt_str};
use crate::session::{SessionRecord, cookie_header, header_of};
use crate::strings::{ascii_lower_seq, is_ascii_seq, lower_of, lowercase};

verus! {

/// The three vendor portals.
#[derive(Debug, Clone, Copy, PartialEq, Eq, Structural)]
pub enum Vendor {
    Bsh,
    SubZero,
    Miele,
}

/// The vendor an already-lowercased manufacturer text names.
pub open spec fn vendor_from(low: Seq<char>) -> Option<Vendor> {
    if low == "bsh"@ {
        Some(Vendor::Bsh)
    } else if low == "subzero"@ {
        Some(Vendor::SubZero)
    } else if low == "miele"@ {
        Some(Vendor::Miele)
    } else {
        None
    }
}

/// The vendor a manufacturer text names, compared in lowercase.
pub open spec fn vendor_of(m: Seq<char>) -> Option<Vendor> {
    vendor_from(lower_of(m))
}

/// Decide the vendor a request is for.
pub fn request_vendor(req: &AvailabilityRequest) -> (r: Option<Vendor>)
    ensures
        r == match opt_str(req.manufacturer) {
            Some(m) => vendor_of(m),
            None => None::<Vendor>,
        },
        (opt_str(req.manufacturer) is Some && is_ascii_seq(opt_str(req.manufacturer)->0)) ==> r
            == vendor_from(ascii_lower_seq(opt_str(req.manufacturer)->0)),
{
    match &req.manufacturer {
        Some(m) => {
            let low = lowercase(m.as_str());
            if low == String::from_str("bsh") {
                Some(Vendor::Bsh)
            } else if low == String::from_str("subzero") {
                Some(Vendor::SubZero)
            } else if low == String::from_str("miele") {
                Some(Vendor::Miele)
            } else {
                None
            }
        },
        None => None,
    }
}

/// What the driver must do next for one request.
#[derive(Debug)]
pub enum ResolveAction {
    /// Read the vendor's persisted session record and report it.
    ReadCache,
    /// Run the vendor's login flow, persist its record, report success.
    Login,
    /// Run the vendor's query protocol with this session cookie header.
    Dispatch { vendor: Vendor, cookie_header: String },
    /// The request is answered: the availability text, or nothing when
    /// the request names no known vendor.
    Finish { result: Option<String> },
    /// Authentication failed: the one fatal outcome.
    Fail { message: String },
}

/// Where one request's resolution stands.
#[derive(Debug)]
pub enum ResolveState {
    /// Waiting for the session cache to be read; `retried` after a login.
    AwaitCache { retried: bool },
    /// Waiting for the login flow.
    AwaitLogin,
    /// Waiting for the vendor adapter's answer.
    AwaitAnswer,
    /// Finished.
    Done,
}

/// The per-request orchestration machine.
#[derive(Debug)]
pub struct Resolver {
    /// The vendor under query.
    pub vendor: Vendor,
    /// Where resolution stands.
    pub state: ResolveState,
}

/// The non-fatal answer when the cache stays empty even after a login.
pub open spec fn session_unavailable_of(v: Vendor) -> Seq<char> {
    match v {
        Vendor::Bsh => "Faild to login to BSH website."@,
        Vendor::SubZero => "Failed to get SubZero token."@,
        Vendor::Miele => "Failed to get session token."@,
    }
}

impl Resolver {
    /// Begin resolving a request. A request naming no known vendor is
    /// answered with nothing. One missing its warehouse is answered with
    /// the validation text — except for the cart vendor, whose protocol
    /// takes no warehouse — as is one missing its model number; nothing
    /// is dispatched without the fields its adapter sends. Otherwise the
    /// session cache is read first — except for the spreadsheet vendor,
    /// which needs no session and is dispatched at once.
    pub fn begin(req: &AvailabilityRequest) -> (r: (Resolver, ResolveAction))
        ensures
            ({
                let v = match opt_str(req.manufacturer) {
                    Some(m) => vendor_of(m),
                    None => None::<Vendor>,
                };
                match v {
                    None => r.1 matches ResolveAction::Finish { result } && result is None,
                    Some(vendor) => {
                        &&& r.0.vendor == vendor
                        &&& if !(vendor is SubZero) && opt_str(req.warehouse) is None {
                            r.0.state is Done && (r.1 matches ResolveAction::Finish { result }
                                && opt_str(result) == Some("No warehouse found."@))
                        } else if opt_str(req.model_number) is None {
                            r.0.state is Done && (r.1 matches ResolveAction::Finish { result }
                                && opt_str(result) == Some(
                                if vendor is Miele {
                                    "No model number found."@
                                } else {
                                    "No model number provided"@
                                },
                            ))
                        } else if vendor is Miele {
                            r.0.state is AwaitAnswer && (r.1 matches ResolveAction::Dispatch {
                                vendor: dv,
                                cookie_header,
                            } && dv is Miele && cookie_header@ == Seq::<char>::empty())
                        } else {
                            (r.0.state matches ResolveState::AwaitCache { retried } && !retried)
                                && r.1 is ReadCache
                        }
                    },
                }
            }),
    {
        let vendor = request_vendor(req);
        match vendor {
            None => {
                (
                    Resolver { vendor: Vendor::Bsh, state: ResolveState::Done },
                    ResolveAction::Finish { result: None },
                )
            },
            Some(v) => {
                if !matches!(v, Vendor::SubZero) && req.warehouse.is_none() {
                    (
                        Resolver { vendor: v, state: ResolveState::Done },
                        ResolveAction::Finish {
                            result: Some(String::from_str("No warehouse found.")),
                        },
                    )
                } else if req.model_number.is_none() {
                    let text = if matches!(v, Vendor::Miele) {
                        String::from_str("No model number found.")
                    } else {
                        String::from_str("No model number provided")
                    };
                    (
                        Resolver { vendor: v, state: ResolveState::Done },
                        ResolveAction::Finish { result: Some(text) },
                    )
                } else if matches!(v, Vendor::Miele) {
                    proof {
                        reveal_strlit("");
                        assert(""@ =~= Seq::<char>::empty());
                    }
                    (
                        Resolver { vendor: v, state: ResolveState::AwaitAnswer },
                        ResolveAction::Dispatch { vendor: v, cookie_header: String::from_str("") },
                    )
                } else {
                    (
                        Resolver { vendor: v, state: ResolveState::AwaitCache { retried: false } },
                        ResolveAction::ReadCache,
                    )
                }
            },
        }
    }

    /// Take the cache's answer. A record dispatches with its cookie
    /// header; an absent record triggers one login, and an absent
    /// record after the retry answers with the vendor's non-fatal
    /// session-unavailable text.
    pub fn on_cache(self, record: Option<SessionRecord>) -> (r: (Resolver, ResolveAction))
        requires
            self.state is AwaitCache,
        ensures
            r.0.vendor == self.vendor,
            match record {
                Some(rec) => r.0.state is AwaitAnswer && (r.1 matches ResolveAction::Dispatch {
                    vendor,
                    cookie_header,
                } && vendor == self.vendor && cookie_header@ == header_of(rec.cookies@)),
                None => {
                    if !self.state->AwaitCache_retried {
                        r.0.state is AwaitLogin && r.1 is Login
                    } else {
                        r.0.state is Done && (r.1 matches ResolveAction::Finish { result }
                            && opt_str(result) == Some(session_unavailable_of(self.vendor)))
                    }
                },
            },
    {
        match record {
            Some(rec) => {
                let header = cookie_header(&rec.cookies);
                let v = self.vendor;
                (
                    Resolver { state: ResolveState::AwaitAnswer, ..self },
                    ResolveAction::Dispatch { vendor: v, cookie_header: header },
                )
            },
            None => {
                let retried = match self.state {
                    ResolveState::AwaitCache { retried } => retried,
                    _ => false,
                };
                if !retried {
                    (Resolver { state: ResolveState::AwaitLogin, ..self }, ResolveAction::Login)
                } else {
                    let text = match self.vendor {
                        Vendor::Bsh => String::from_str("Faild to login to BSH website."),
                        Vendor::SubZero => String::from_str("Failed to get SubZero token."),
                        Vendor::Miele => String::from_str("Failed to get session token."),
                    };
                    (
                        Resolver { state: ResolveState::Done, ..self },
                        ResolveAction::Finish { result: Some(text) },
                    )
                }
            },
        }
    }

    /// Take the login's outcome: re-read the cache on success; abort
    /// with the failure otherwise — authentication failure is fatal.
    pub fn on_login(self, ok: bool, message: String) -> (r: (Resolver, ResolveAction))
        requires
            self.state is AwaitLogin,
        ensures
            r.0.vendor == self.vendor,
            ok ==> (r.0.state matches ResolveState::AwaitCache { retried } && retried)
                && r.1 is ReadCache,
            !ok ==> r.0.state is Done && (r.1 matches ResolveAction::Fail { message: m } && m
                == message),
    {
        if ok {
            (
                Resolver { state: ResolveState::AwaitCache { retried: true }, ..self },
                ResolveAction::ReadCache,
            )
        } else {
            (Resolver { state: ResolveState::Done, ..self }, ResolveAction::Fail { message })
        }
    }

    /// Take the vendor adapter's answer: resolution is finished.
    pub fn on_answer(self, answer: String) -> (r: (Resolver, ResolveAction))
        requires
            self.state is AwaitAnswer,
        ensures
            r.0.vendor == self.vendor,
            r.0.state is Done,
            r.1 matches ResolveAction::Finish { result } && opt_str(result) == Some(answer@),
    {
        (
            Resolver { state: ResolveState::Done, ..self },
            ResolveAction::Finish { result: Some(answer) },
        )
    }
}

} // verus!
