//! The person record: name, birthday, gender code, optional photo URL, and
//! the tri-state photo slot, with the display texts derived from them.

use vstd::prelude::*;
use vstd::string::StringExecFns;
use crate::date::{Date, spec_years_since};
use crate::text::{spec_dec_digits, push_char, append_u32};

verus! {

/// Abstract value of a photo slot: nothing arrived yet, image bytes, or a
/// placeholder message after a failed fetch.
pub enum PhotoStateView {
    Unloaded,
    Loaded(Seq<u8>),
    Failed(Seq<char>),
}

/// A photo slot: `Unloaded` until the one fetch result for the record's URL
/// arrives, then `Loaded` with the image bytes or `Failed` with a placeholder.
#[derive(Debug)]
pub enum PhotoState {
    Unloaded,
    Loaded(Vec<u8>),
    Failed(String),
}

impl View for PhotoState {
    type V = PhotoStateView;

    open spec fn view(&self) -> PhotoStateView {
        match self {
            PhotoState::Unloaded => PhotoStateView::Unloaded,
            PhotoState::Loaded(b) => PhotoStateView::Loaded(b@),
            PhotoState::Failed(m) => PhotoStateView::Failed(m@),
        }
    }
}

/// Copies a byte vector element by element.
fn clone_bytes(b: &Vec<u8>) -> (r: Vec<u8>)
    ensures
        r@ == b@,
{
    let mut r: Vec<u8> = Vec::new();
    let mut i: usize = 0;
    while i < b.len()
        invariant
            i <= b.len(),
            r@ == b@.subrange(0, i as int),
        decreases b.len() - i,
    {
        r.push(b[i]);
        i = i + 1;
        proof {
            assert(r@ =~= b@.subrange(0, i as int));
        }
    }
    proof {
        assert(r@ =~= b@);
    }
    r
}

impl Clone for PhotoState {
    fn clone(&self) -> (r: Self)
        ensures
            r@ == self@,
    {
        match self {
            PhotoState::Unloaded => PhotoState::Unloaded,
            PhotoState::Loaded(b) => PhotoState::Loaded(clone_bytes(b)),
            PhotoState::Failed(m) => PhotoState::Failed(m.clone()),
        }
    }
}

/// Abstract value of a person record.
pub struct PersonView {
    pub last_name: Seq<char>,
    pub first_name: Seq<char>,
    pub birthday: Date,
    pub gender: char,
    pub photo_url: Option<Seq<char>>,
    pub photo_state: PhotoStateView,
}

/// One person record, as read from a row of the input file.
#[derive(Debug)]
pub struct Person {
    pub last_name: String,
    pub first_name: String,
    pub birthday: Date,
    pub gender: char,
    pub photo_url: Option<String>,
    pub photo_state: PhotoState,
}

impl View for Person {
    type V = PersonView;

    open spec fn view(&self) -> PersonView {
        PersonView {
            last_name: self.last_name@,
            first_name: self.first_name@,
            birthday: self.birthday,
            gender: self.gender,
            photo_url: match self.photo_url {
                Some(u) => Some(u@),
                None => None,
            },
            photo_state: self.photo_state@,
        }
    }
}

impl DeepView for Person {
    type V = PersonView;

    open spec fn deep_view(&self) -> PersonView {
        self@
    }
}

/// The pronoun shown before a person's name, chosen by the gender code.
pub open spec fn spec_pronoun(g: char) -> Seq<char> {
    if g == 'm' || g == 'M' {
        "Herr "@
    } else if g == 'f' || g == 'F' || g == 'w' || g == 'W' {
        "Frau "@
    } else {
        ""@
    }
}

/// Maps a gender code to its display pronoun: `m`/`M` to "Herr ",
/// `f`/`F`/`w`/`W` to "Frau ", anything else to the empty string.
pub fn pronoun(g: char) -> (r: &'static str)
    ensures
        r@ == spec_pronoun(g),
{
    if g == 'm' || g == 'M' {
        "Herr "
    } else if g == 'f' || g == 'F' || g == 'w' || g == 'W' {
        "Frau "
    } else {
        ""
    }
}

/// The banner line for a person on the given day: pronoun and name, then the
/// age in whole years when the birthday does not lie in the future, else a
/// plain birthday greeting.
pub open spec fn spec_banner_text(p: PersonView, today: Date) -> Seq<char> {
    let name = spec_pronoun(p.gender) + p.first_name + " "@ + p.last_name;
    match spec_years_since(today, p.birthday) {
        Some(age) => name + " wird heute "@ + spec_dec_digits(age as int) + " Jahre alt."@,
        None => name + " hat heute Geburtstag."@,
    }
}

impl Person {
    /// A well-formed record carries a real calendar birthday.
    pub open spec fn wf(&self) -> bool {
        self.birthday.wf()
    }

    /// Renders the banner line shown for this person on day `today`.
    pub fn banner_text(&self, today: &Date) -> (r: String)
        requires
            self.wf(),
            today.wf(),
        ensures
            r@ == spec_banner_text(self@, *today),
    {
        let mut s = String::from_str(pronoun(self.gender));
        s.append(self.first_name.as_str());
        push_char(&mut s, ' ');
        s.append(self.last_name.as_str());
        match today.years_since(&self.birthday) {
            Some(age) => {
                s.append(" wird heute ");
                append_u32(&mut s, age);
                s.append(" Jahre alt.");
            },
            None => {
                s.append(" hat heute Geburtstag.");
            },
        }
        proof {
            reveal_strlit(" ");
            assert(s@ =~= spec_banner_text(self@, *today));
        }
        s
    }

    /// The error text a renderer shows for this person: the failure message,
    /// unless silent mode hides it or no fetch has failed.
    pub fn visible_error(&self, silent: bool) -> (r: Option<String>)
        ensures
            (match r {
                Some(m) => !silent && (self@.photo_state matches PhotoStateView::Failed(t) && m@
                    == t),
                None => silent || !(self@.photo_state matches PhotoStateView::Failed(_)),
            }),
    {
        if silent {
            None
        } else {
            match &self.photo_state {
                PhotoState::Failed(m) => Some(m.clone()),
                _ => None,
            }
        }
    }
}

} // verus!
