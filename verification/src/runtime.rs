//! A fixed locale type for dictionaries that do not declare their own: two
//! languages, each with a handful of regions.
use vstd::prelude::*;
use crate::model::str_eq;

verus! {

/// A language together with its region.
#[derive(Copy, Clone, Debug, PartialEq, Eq, Structural)]
pub enum Locale {
    De(DeRegion),
    En(EnRegion),
}

/// The regions of German; `NoRegion` stands for "no region given".
#[derive(Copy, Clone, Debug, PartialEq, Eq, Structural)]
pub enum DeRegion {
    NoRegion,
    At,
    Ch,
    De,
}

/// The regions of English; `NoRegion` stands for "no region given".
#[derive(Copy, Clone, Debug, PartialEq, Eq, Structural)]
pub enum EnRegion {
    NoRegion,
    Gb,
    Us,
}

/// The locale that a language name denotes.
pub open spec fn locale_of_name(s: Seq<char>) -> Option<Locale> {
    if s == "De"@ {
        Some(Locale::De(DeRegion::NoRegion))
    } else if s == "En"@ {
        Some(Locale::En(EnRegion::NoRegion))
    } else {
        None
    }
}

/// The locale that a region name denotes within the language of `base`.
pub open spec fn locale_with_region(base: Locale, s: Seq<char>) -> Option<Locale> {
    match base {
        Locale::De(_) => if s == "At"@ {
            Some(Locale::De(DeRegion::At))
        } else if s == "Ch"@ {
            Some(Locale::De(DeRegion::Ch))
        } else if s == "De"@ {
            Some(Locale::De(DeRegion::De))
        } else {
            None
        },
        Locale::En(_) => if s == "Gb"@ {
            Some(Locale::En(EnRegion::Gb))
        } else if s == "Us"@ {
            Some(Locale::En(EnRegion::Us))
        } else {
            None
        },
    }
}

impl Locale {
    /// German, with no region given.
    pub fn de() -> (locale: Self)
        ensures
            locale == Locale::De(DeRegion::NoRegion),
    {
        Locale::De(DeRegion::NoRegion)
    }

    /// English, with no region given.
    pub fn en() -> (locale: Self)
        ensures
            locale == Locale::En(EnRegion::NoRegion),
    {
        Locale::En(EnRegion::NoRegion)
    }

    /// The language named `s`, with no region given; `None` for any other
    /// name.
    pub fn from_variant_str(s: &str) -> (locale: Option<Self>)
        ensures
            locale == locale_of_name(s@),
    {
        if str_eq(s, "De") {
            Some(Self::de())
        } else if str_eq(s, "En") {
            Some(Self::en())
        } else {
            None
        }
    }

    /// This language with the region named `s`; `None` if the language has
    /// no region of that name.
    pub fn with_region_variant_str(&self, s: &str) -> (locale: Option<Self>)
        ensures
            locale == locale_with_region(*self, s@),
    {
        match *self {
            Locale::De(_) => {
                if str_eq(s, "At") {
                    Some(Locale::De(DeRegion::At))
                } else if str_eq(s, "Ch") {
                    Some(Locale::De(DeRegion::Ch))
                } else if str_eq(s, "De") {
                    Some(Locale::De(DeRegion::De))
                } else {
                    None
                }
            },
            Locale::En(_) => {
                if str_eq(s, "Gb") {
                    Some(Locale::En(EnRegion::Gb))
                } else if str_eq(s, "Us") {
                    Some(Locale::En(EnRegion::Us))
                } else {
                    None
                }
            },
        }
    }

    /// The name of the type that holds this language's regions.
    pub fn region_type_str(&self) -> (name: &'static str)
        ensures
            name@ == (match *self {
                Locale::De(_) => "DeRegion"@,
                Locale::En(_) => "EnRegion"@,
            }),
    {
        match *self {
            Locale::De(_) => "DeRegion",
            Locale::En(_) => "EnRegion",
        }
    }
}

} // verus!
