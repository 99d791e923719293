use vstd::prelude::*;

use crate::text::{is_blank, trim, trimmed};

verus! {

/// What a connection asks for: the game to join and the player's name.
#[derive(Debug, Clone)]
pub struct NewGameParams {
    pub token: Option<String>,
    pub name: Option<String>,
}

pub open spec fn opt_view(o: Option<String>) -> Option<Seq<char>> {
    match o {
        Some(s) => Some(s@),
        None => None,
    }
}

/// A parameter trimmed of whitespace, and dropped when nothing is left.
pub open spec fn normal_field(o: Option<Seq<char>>) -> Option<Seq<char>> {
    match o {
        Some(s) => if is_blank(s) {
            None
        } else {
            Some(trimmed(s))
        },
        None => None,
    }
}

fn normalize_field(o: &Option<String>) -> (r: Option<String>)
    ensures
        opt_view(r) == normal_field(opt_view(*o)),
{
    match o {
        Some(s) => {
            let t = trim(s.as_str());
            if t.is_empty() {
                None
            } else {
                Some(t.to_owned())
            }
        },
        None => None,
    }
}

impl NewGameParams {
    /// The parameters with each value trimmed, and blank ones left out.
    pub fn normalized(&self) -> (r: NewGameParams)
        ensures
            opt_view(r.token) == normal_field(opt_view(self.token)),
            opt_view(r.name) == normal_field(opt_view(self.name)),
    {
        NewGameParams { token: normalize_field(&self.token), name: normalize_field(&self.name) }
    }
}

} // verus!
