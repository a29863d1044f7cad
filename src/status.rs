use vstd::prelude::*;

use vstd::string::StringExecFns;

use crate::text::{ascii_lower, ascii_lower_str, str_eq};

verus! {

/// Lifecycle stage of an action, in their fixed order.
#[derive(Debug, Clone, Copy, PartialEq, Eq, Structural)]
pub enum Status {
    Discovery,
    Design,
    Implement,
    Test,
    Document,
    Publish,
    Published,
}

/// Error for a status name that matches none of the stages.
#[derive(Debug, Clone)]
pub enum StatusError {
    InvalidStatus(String),
}

/// Position of a stage in the lifecycle order.
pub open spec fn rank(s: Status) -> int {
    match s {
        Status::Discovery => 0,
        Status::Design => 1,
        Status::Implement => 2,
        Status::Test => 3,
        Status::Document => 4,
        Status::Publish => 5,
        Status::Published => 6,
    }
}

/// The stage at a position of the lifecycle order.
pub open spec fn status_at(i: int) -> Option<Status> {
    if i == 0 {
        Some(Status::Discovery)
    } else if i == 1 {
        Some(Status::Design)
    } else if i == 2 {
        Some(Status::Implement)
    } else if i == 3 {
        Some(Status::Test)
    } else if i == 4 {
        Some(Status::Document)
    } else if i == 5 {
        Some(Status::Publish)
    } else if i == 6 {
        Some(Status::Published)
    } else {
        None
    }
}

/// Canonical lowercase name of a stage.
pub open spec fn status_name(s: Status) -> Seq<char> {
    match s {
        Status::Discovery => seq!['d', 'i', 's', 'c', 'o', 'v', 'e', 'r', 'y'],
        Status::Design => seq!['d', 'e', 's', 'i', 'g', 'n'],
        Status::Implement => seq!['i', 'm', 'p', 'l', 'e', 'm', 'e', 'n', 't'],
        Status::Test => seq!['t', 'e', 's', 't'],
        Status::Document => seq!['d', 'o', 'c', 'u', 'm', 'e', 'n', 't'],
        Status::Publish => seq!['p', 'u', 'b', 'l', 'i', 's', 'h'],
        Status::Published => seq!['p', 'u', 'b', 'l', 'i', 's', 'h', 'e', 'd'],
    }
}

/// The stage whose canonical name is exactly `s`, if any.
pub open spec fn status_named(s: Seq<char>) -> Option<Status> {
    if s == status_name(Status::Discovery) {
        Some(Status::Discovery)
    } else if s == status_name(Status::Design) {
        Some(Status::Design)
    } else if s == status_name(Status::Implement) {
        Some(Status::Implement)
    } else if s == status_name(Status::Test) {
        Some(Status::Test)
    } else if s == status_name(Status::Document) {
        Some(Status::Document)
    } else if s == status_name(Status::Publish) {
        Some(Status::Publish)
    } else if s == status_name(Status::Published) {
        Some(Status::Published)
    } else {
        None
    }
}

/// The stage that a status string denotes: its name, compared without
/// regard to ASCII letter case.
pub open spec fn parse_status(s: Seq<char>) -> Option<Status> {
    status_named(ascii_lower(s))
}

impl Status {
    /// Parses a stage name, ignoring letter case.
    pub fn from_str(s: &str) -> (r: Result<Status, StatusError>)
        ensures
            match parse_status(s@) {
                Some(st) => r == Ok::<Status, StatusError>(st),
                None => r matches Err(StatusError::InvalidStatus(t)) && t@ == s@,
            },
    {
        let lower = ascii_lower_str(s);
        let l = lower.as_str();
        proof {
            reveal_strlit("discovery");
            assert("discovery"@ =~= status_name(Status::Discovery));
            reveal_strlit("design");
            assert("design"@ =~= status_name(Status::Design));
            reveal_strlit("implement");
            assert("implement"@ =~= status_name(Status::Implement));
            reveal_strlit("test");
            assert("test"@ =~= status_name(Status::Test));
            reveal_strlit("document");
            assert("document"@ =~= status_name(Status::Document));
            reveal_strlit("publish");
            assert("publish"@ =~= status_name(Status::Publish));
            reveal_strlit("published");
            assert("published"@ =~= status_name(Status::Published));
        }
        if str_eq(l, "discovery") {
            Ok(Status::Discovery)
        } else if str_eq(l, "design") {
            Ok(Status::Design)
        } else if str_eq(l, "implement") {
            Ok(Status::Implement)
        } else if str_eq(l, "test") {
            Ok(Status::Test)
        } else if str_eq(l, "document") {
            Ok(Status::Document)
        } else if str_eq(l, "publish") {
            Ok(Status::Publish)
        } else if str_eq(l, "published") {
            Ok(Status::Published)
        } else {
            Err(StatusError::InvalidStatus(String::from_str(s)))
        }
    }
}


/// Sections (by title) that a document at a stage must hold, in order.
/// Only the discovery, design and document stages ask for any. Discovery
/// lists only sections that an action has a field for: the title is always
/// there, and no action holds a statement of specifications, so neither is
/// listed.
pub open spec fn required_names(s: Status) -> Seq<Seq<char>> {
    match s {
        Status::Discovery => seq!["Notes"@, "Statement of Action"@, "Statement of Inputs"@],
        Status::Design => seq!["Statement of Design"@],
        Status::Document => seq!["Analysis of Impact"@],
        _ => Seq::empty(),
    }
}

impl Status {
    /// Canonical lowercase name of the stage.
    pub fn as_str(&self) -> (r: &'static str)
        ensures
            r@ == status_name(*self),
    {
        proof {
            reveal_strlit("discovery");
            reveal_strlit("design");
            reveal_strlit("implement");
            reveal_strlit("test");
            reveal_strlit("document");
            reveal_strlit("publish");
            reveal_strlit("published");
        }
        let r = match self {
            Status::Discovery => "discovery",
            Status::Design => "design",
            Status::Implement => "implement",
            Status::Test => "test",
            Status::Document => "document",
            Status::Publish => "publish",
            Status::Published => "published",
        };
        assert(r@ =~= status_name(*self));
        r
    }

    /// Canonical lowercase name of the stage, as an owned string.
    pub fn to_string(&self) -> (r: String)
        ensures
            r@ == status_name(*self),
    {
        String::from_str(self.as_str())
    }

    /// The stage name with a leading `#`, as it appears among a document's tags.
    pub fn as_tag(&self) -> (r: String)
        ensures
            r@ == seq!['#'] + status_name(*self),
    {
        proof {
            reveal_strlit("#");
        }
        let hash = String::from_str("#");
        let r = hash.concat(self.as_str());
        assert(r@ =~= seq!['#'] + status_name(*self));
        r
    }

    /// The stage that follows this one; none after the last.
    pub fn next_status(&self) -> (r: Option<Status>)
        ensures
            r == status_at(rank(*self) + 1),
    {
        match self {
            Status::Discovery => Some(Status::Design),
            Status::Design => Some(Status::Implement),
            Status::Implement => Some(Status::Test),
            Status::Test => Some(Status::Document),
            Status::Document => Some(Status::Publish),
            Status::Publish => Some(Status::Published),
            Status::Published => None,
        }
    }

    /// The stage that precedes this one; none before the first.
    pub fn previous_status(&self) -> (r: Option<Status>)
        ensures
            r == status_at(rank(*self) - 1),
    {
        match self {
            Status::Discovery => None,
            Status::Design => Some(Status::Discovery),
            Status::Implement => Some(Status::Design),
            Status::Test => Some(Status::Implement),
            Status::Document => Some(Status::Test),
            Status::Publish => Some(Status::Document),
            Status::Published => Some(Status::Publish),
        }
    }

    /// Titles of the sections that a document at this stage must hold.
    pub fn required_outputs(&self) -> (r: Vec<&'static str>)
        ensures
            r@.map_values(|t: &'static str| t@) == required_names(*self),
    {
        let r = match self {
            Status::Discovery => vec!["Notes", "Statement of Action", "Statement of Inputs"],
            Status::Design => vec!["Statement of Design"],
            Status::Document => vec!["Analysis of Impact"],
            _ => Vec::new(),
        };
        assert(r@.map_values(|t: &'static str| t@) =~= required_names(*self));
        r
    }
}

impl Default for Status {
    fn default() -> (r: Status)
        ensures
            r == Status::Discovery,
    {
        Status::Discovery
    }
}

/// Parsing the canonical name of a stage gives that stage back, and parsing
/// ignores ASCII letter case: a string and its lowercase form parse alike.
pub proof fn lemma_parse_inverts_name(s: Status, t: Seq<char>)
    ensures
        parse_status(status_name(s)) == Some(s),
        parse_status(t) == parse_status(ascii_lower(t)),
{
    assert(ascii_lower(status_name(s)) =~= status_name(s));
    assert(ascii_lower(ascii_lower(t)) =~= ascii_lower(t));
}

/// Going one stage back and then one forward returns to the start, for every
/// stage but the first; going forward then back, for every stage but the last.
pub proof fn lemma_next_previous(s: Status)
    ensures
        s != Status::Discovery ==> (match status_at(rank(s) - 1) {
            Some(p) => status_at(rank(p) + 1) == Some(s),
            None => false,
        }),
        s != Status::Published ==> (match status_at(rank(s) + 1) {
            Some(n) => status_at(rank(n) - 1) == Some(s),
            None => false,
        }),
        s == Status::Discovery ==> status_at(rank(s) - 1) is None,
        s == Status::Published ==> status_at(rank(s) + 1) is None,
{
}

} // verus!
