use vstd::prelude::*;

verus! {

/// The comparable identity of a track, used to decide whether two tracks in
/// different files are "the same": a short language code, an IETF language
/// tag, and an optional display name. Identities never carry a track id.
#[derive(Debug)]
pub struct Same {
    pub language: String,
    pub language_ietf: String,
    pub name: Option<String>,
}

/// The mathematical value of a [`Same`]: the three fields as sequences of
/// characters. Two identities are equal iff all three fields are equal; an
/// absent name matches only an absent name.
pub ghost struct SameV {
    pub language: Seq<char>,
    pub language_ietf: Seq<char>,
    pub name: Option<Seq<char>>,
}

impl View for Same {
    type V = SameV;

    open spec fn view(&self) -> SameV {
        SameV {
            language: self.language@,
            language_ietf: self.language_ietf@,
            name: self.name.deep_view(),
        }
    }
}

/// Full three-field equality of identities, per the data model: language,
/// IETF tag and optional name must all agree.
pub open spec fn same_eq(a: SameV, b: SameV) -> bool {
    a.language == b.language && a.language_ietf == b.language_ietf && a.name == b.name
}

impl Same {
    pub fn new(language: &str, language_ietf: &str, name: Option<String>) -> (s: Self)
        ensures
            s@.language == language@,
            s@.language_ietf == language_ietf@,
            s@.name == name.deep_view(),
    {
        Self { language: language.to_owned(), language_ietf: language_ietf.to_owned(), name }
    }
}

/// The label an identity shows in the operator's selection menu:
/// `language (name)`, or `language` alone when the name is absent.
pub open spec fn label_of(s: SameV) -> Seq<char> {
    match s.name {
        Some(n) => s.language + " ("@ + n + ")"@,
        None => s.language,
    }
}

impl Same {
    /// Render this identity's selection-menu label.
    pub fn label(&self) -> (r: String)
        ensures
            r@ == label_of(self@),
    {
        match &self.name {
            Some(n) => {
                let mut r = self.language.clone();
                r.append(" (");
                r.append(n.as_str());
                r.append(")");
                r
            },
            None => self.language.clone(),
        }
    }
}

/// Equality of two optional strings by value: an absent name is equal only to
/// an absent name.
pub fn opt_string_eq(a: &Option<String>, b: &Option<String>) -> (r: bool)
    ensures
        r == (a.deep_view() == b.deep_view()),
{
    match (a, b) {
        (None, None) => true,
        (Some(x), Some(y)) => *x == *y,
        _ => false,
    }
}

impl Clone for Same {
    fn clone(&self) -> (s: Self)
        ensures
            s@ == self@,
    {
        Same {
            language: self.language.clone(),
            language_ietf: self.language_ietf.clone(),
            name: match &self.name {
                Some(n) => Some(n.clone()),
                None => None,
            },
        }
    }
}

impl PartialEq for Same {
    fn eq(&self, other: &Self) -> (r: bool)
        ensures
            r == same_eq(self@, other@),
    {
        self.language == other.language && self.language_ietf == other.language_ietf
            && opt_string_eq(&self.name, &other.name)
    }
}

impl vstd::std_specs::cmp::PartialEqSpecImpl for Same {
    open spec fn obeys_eq_spec() -> bool {
        true
    }

    open spec fn eq_spec(&self, other: &Same) -> bool {
        same_eq(self@, other@)
    }
}

} // verus!
