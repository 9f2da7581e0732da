//! The availability request: the value threaded through the pipeline,
//! with manufacturer canonicalization and the showroom-to-warehouse table.

use vstd::prelude::*;
use crate::strings::{ascii_lower_seq, is_ascii_seq, lower_of, lowercase};

verus! {

/// User identity carried along with an availability request.
#[derive(Debug, Clone)]
pub struct AvailabilityRequestUser {
    pub id: String,
    pub given_name: Option<String>,
    pub surname: Option<String>,
    pub display_name: Option<String>,
    pub job_title: Option<String>,
    pub user_principal_name: Option<String>,
    pub office_location: Option<String>,
}

/// One availability request as it moves through the pipeline. Each stage
/// returns an updated copy and leaves every other field as it was.
#[derive(Debug, Clone)]
pub struct AvailabilityRequest {
    pub manufacturer: Option<String>,
    pub showroom: Option<String>,
    pub model_number: Option<String>,
    pub warehouse: Option<String>,
    pub utc_time: Option<String>,
    pub availability: Option<String>,
    pub user: Option<AvailabilityRequestUser>,
}

/// The character view of an optional string.
pub open spec fn opt_str(o: Option<String>) -> Option<Seq<char>> {
    match o {
        Some(s) => Some(s@),
        None => None,
    }
}

/// The canonical manufacturer tag for an already-lowercased text: the
/// text itself when it names one of the three known vendors.
pub open spec fn canon_from(low: Seq<char>) -> Option<Seq<char>> {
    if low == "bsh"@ {
        Some("bsh"@)
    } else if low == "subzero"@ {
        Some("subzero"@)
    } else if low == "miele"@ {
        Some("miele"@)
    } else {
        None
    }
}

/// The canonical manufacturer tag for a raw manufacturer text: its
/// lowercase form when that is one of the three known vendors.
pub open spec fn canonical_manufacturer(m: Seq<char>) -> Option<Seq<char>> {
    canon_from(lower_of(m))
}

/// The vendor-specific warehouse code for an already-lowercased
/// showroom and manufacturer.
pub open spec fn warehouse_from(s: Seq<char>, m: Seq<char>) -> Option<Seq<char>> {
    if s == "houston"@ {
        if m == "bsh"@ {
            Some("US00002148"@)
        } else if m == "subzero"@ {
            Some("99432040"@)
        } else if m == "miele"@ {
            Some("Forest Park, IL"@)
        } else {
            None
        }
    } else if s == "florida"@ {
        if m == "bsh"@ {
            Some("US00000103"@)
        } else if m == "subzero"@ {
            Some("99211620"@)
        } else if m == "miele"@ {
            Some("Pompano Beach, FL"@)
        } else {
            None
        }
    } else if s == "los angeles"@ {
        if m == "bsh"@ {
            Some("US00003803"@)
        } else if m == "subzero"@ {
            Some("99614560"@)
        } else if m == "miele"@ {
            Some("Stockton, CA"@)
        } else {
            None
        }
    } else if s == "chicago"@ {
        if m == "bsh"@ {
            Some("US00001842"@)
        } else if m == "subzero"@ {
            Some("99311630"@)
        } else if m == "miele"@ {
            Some("Forest Park, IL"@)
        } else {
            None
        }
    } else if s == "new york"@ {
        if m == "bsh"@ {
            Some("US00002933"@)
        } else if m == "subzero"@ {
            Some("99103710"@)
        } else if m == "miele"@ {
            Some("South Brunswick, NJ"@)
        } else {
            None
        }
    } else if s == "dallas"@ {
        if m == "bsh"@ {
            Some("US00003189"@)
        } else if m == "subzero"@ {
            Some("99411540"@)
        } else if m == "miele"@ {
            Some("Forest Park, IL"@)
        } else {
            None
        }
    } else {
        None
    }
}

/// The vendor-specific warehouse code for a showroom, both compared in
/// lowercase.
pub open spec fn warehouse_for(showroom: Seq<char>, manufacturer: Seq<char>) -> Option<Seq<char>> {
    warehouse_from(lower_of(showroom), lower_of(manufacturer))
}

/// The current UTC time rendered as `%m/%d/%Y %I:%M:%S %p`.
///
/// Relies on chrono's `Utc::now` and `DateTime::format`; the result
/// depends on the clock, so nothing is claimed of it.
#[verifier::external_body]
fn utc_now_formatted() -> String {
    chrono::Utc::now().format("%m/%d/%Y %I:%M:%S %p").to_string()
}

impl AvailabilityRequest {
    /// A fresh request for one appliance model, seen from one showroom.
    pub fn new(manufacturer: String, showroom: String, model_number: String) -> (r: Self)
        ensures
            r.manufacturer == Some(manufacturer),
            r.showroom == Some(showroom),
            r.model_number == Some(model_number),
            r.warehouse is None,
            r.utc_time is None,
            r.availability is None,
            r.user is None,
    {
        Self {
            manufacturer: Some(manufacturer),
            showroom: Some(showroom),
            model_number: Some(model_number),
            warehouse: None,
            utc_time: None,
            availability: None,
            user: None,
        }
    }

    /// Attach the requesting user.
    pub fn add_user(self, user: AvailabilityRequestUser) -> (r: Self)
        ensures
            r.user == Some(user),
            r.manufacturer == self.manufacturer,
            r.showroom == self.showroom,
            r.model_number == self.model_number,
            r.warehouse == self.warehouse,
            r.utc_time == self.utc_time,
            r.availability == self.availability,
    {
        Self { user: Some(user), ..self }
    }

    /// Canonicalize the manufacturer: lowercase it and keep it only when
    /// it names one of the three known vendors.
    pub fn parse_manufacturer(self) -> (r: Self)
        ensures
            opt_str(r.manufacturer) == match opt_str(self.manufacturer) {
                Some(m) => canonical_manufacturer(m),
                None => None::<Seq<char>>,
            },
            (opt_str(self.manufacturer) is Some && is_ascii_seq(opt_str(self.manufacturer)->0))
                ==> opt_str(r.manufacturer) == canon_from(
                ascii_lower_seq(opt_str(self.manufacturer)->0),
            ),
            r.showroom == self.showroom,
            r.model_number == self.model_number,
            r.warehouse == self.warehouse,
            r.utc_time == self.utc_time,
            r.availability == self.availability,
            r.user == self.user,
    {
        let manufacturer = match &self.manufacturer {
            Some(m) => {
                let low = lowercase(m.as_str());
                if low == String::from_str("bsh") {
                    Some(String::from_str("bsh"))
                } else if low == String::from_str("subzero") {
                    Some(String::from_str("subzero"))
                } else if low == String::from_str("miele") {
                    Some(String::from_str("miele"))
                } else {
                    None
                }
            },
            None => None,
        };
        Self { manufacturer, ..self }
    }

    /// Resolve the showroom to the manufacturer's warehouse code, or to
    /// nothing when either part is missing or unknown.
    pub fn get_warehouse(self) -> (r: Self)
        ensures
            opt_str(r.warehouse) == match (opt_str(self.showroom), opt_str(self.manufacturer)) {
                (Some(s), Some(m)) => warehouse_for(s, m),
                _ => None::<Seq<char>>,
            },
            (opt_str(self.showroom) is Some && opt_str(self.manufacturer) is Some && is_ascii_seq(
                opt_str(self.showroom)->0,
            ) && is_ascii_seq(opt_str(self.manufacturer)->0)) ==> opt_str(r.warehouse)
                == warehouse_from(
                ascii_lower_seq(opt_str(self.showroom)->0),
                ascii_lower_seq(opt_str(self.manufacturer)->0),
            ),
            r.manufacturer == self.manufacturer,
            r.showroom == self.showroom,
            r.model_number == self.model_number,
            r.utc_time == self.utc_time,
            r.availability == self.availability,
            r.user == self.user,
    {
        let warehouse = match (&self.showroom, &self.manufacturer) {
            (Some(s), Some(m)) => {
                let sl = lowercase(s.as_str());
                let ml = lowercase(m.as_str());
                if sl == String::from_str("houston") {
                    if ml == String::from_str("bsh") {
                        Some(String::from_str("US00002148"))
                    } else if ml == String::from_str("subzero") {
                        Some(String::from_str("99432040"))
                    } else if ml == String::from_str("miele") {
                        Some(String::from_str("Forest Park, IL"))
                    } else {
                        None
                    }
                } else if sl == String::from_str("florida") {
                    if ml == String::from_str("bsh") {
                        Some(String::from_str("US00000103"))
                    } else if ml == String::from_str("subzero") {
                        Some(String::from_str("99211620"))
                    } else if ml == String::from_str("miele") {
                        Some(String::from_str("Pompano Beach, FL"))
                    } else {
                        None
                    }
                } else if sl == String::from_str("los angeles") {
                    if ml == String::from_str("bsh") {
                        Some(String::from_str("US00003803"))
                    } else if ml == String::from_str("subzero") {
                        Some(String::from_str("99614560"))
                    } else if ml == String::from_str("miele") {
                        Some(String::from_str("Stockton, CA"))
                    } else {
                        None
                    }
                } else if sl == String::from_str("chicago") {
                    if ml == String::from_str("bsh") {
                        Some(String::from_str("US00001842"))
                    } else if ml == String::from_str("subzero") {
                        Some(String::from_str("99311630"))
                    } else if ml == String::from_str("miele") {
                        Some(String::from_str("Forest Park, IL"))
                    } else {
                        None
                    }
                } else if sl == String::from_str("new york") {
                    if ml == String::from_str("bsh") {
                        Some(String::from_str("US00002933"))
                    } else if ml == String::from_str("subzero") {
                        Some(String::from_str("99103710"))
                    } else if ml == String::from_str("miele") {
                        Some(String::from_str("South Brunswick, NJ"))
                    } else {
                        None
                    }
                } else if sl == String::from_str("dallas") {
                    if ml == String::from_str("bsh") {
                        Some(String::from_str("US00003189"))
                    } else if ml == String::from_str("subzero") {
                        Some(String::from_str("99411540"))
                    } else if ml == String::from_str("miele") {
                        Some(String::from_str("Forest Park, IL"))
                    } else {
                        None
                    }
                } else {
                    None
                }
            },
            _ => None,
        };
        Self { warehouse, ..self }
    }

    /// Stamp the request with the current UTC time.
    pub fn get_time(self) -> (r: Self)
        ensures
            r.utc_time is Some,
            r.manufacturer == self.manufacturer,
            r.showroom == self.showroom,
            r.model_number == self.model_number,
            r.warehouse == self.warehouse,
            r.availability == self.availability,
            r.user == self.user,
    {
        Self { utc_time: Some(utc_now_formatted()), ..self }
    }
}

} // verus!
