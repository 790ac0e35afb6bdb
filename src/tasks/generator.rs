//! Generator identities and per-instance arguments.

pub mod timer;
pub mod event;
pub mod ramgen;
pub mod batgen;
pub mod cpugen;
pub mod netgen;
pub mod tempgen;
pub mod diskgen;
pub mod timegen;
pub mod ipgen;
pub mod echogen;
pub mod onegen;
pub mod folgen;

use vstd::prelude::*;
use crate::text::{decimal, u64_to_string};
use crate::dzen_format::{BuilderView, DzenBuilder};

verus! {

/// The kinds of generator.
#[derive(PartialEq, Eq, Structural, Clone, Copy, Hash, Debug)]
pub enum GenType {
    CPU,
    RAM,
    ECHO,
    TIME,
    NET,
    DISK,
    TEMP,
    IP,
    ONE,
    BAT,
}

/// The identity of one running generator.
#[derive(PartialEq, Eq, Structural, Clone, Copy, Hash, Debug)]
pub struct GenId {
    pub gen: GenType,
    pub id: u8,
}

/// The configuration of one generator instance.
pub struct GenArg {
    /// Seconds between refreshes, overriding the generator's own period.
    pub timeout: Option<u64>,
    /// A generator-specific argument: an interface, a command, a list of disks.
    pub arg: Option<String>,
    /// Markup put before the generator's text.
    pub prepend: Option<DzenBuilder>,
}

pub struct GenArgView {
    pub timeout: Option<u64>,
    pub arg: Option<Seq<char>>,
    pub prepend: Option<BuilderView>,
}

impl View for GenArg {
    type V = GenArgView;

    open spec fn view(&self) -> GenArgView {
        GenArgView {
            timeout: self.timeout,
            arg: match self.arg {
                Some(a) => Some(a@),
                None => None,
            },
            prepend: match self.prepend {
                Some(p) => Some(p@),
                None => None,
            },
        }
    }
}

/// The builder a generator's text starts from.
pub open spec fn arg_builder(a: GenArgView) -> BuilderView {
    match a.prepend {
        Some(p) => p,
        None => DzenBuilder::new_view(),
    }
}

/// The refresh period: the argument's timeout, else the generator's own.
pub open spec fn delay_of(a: GenArgView, default: u64) -> u64 {
    match a.timeout {
        Some(t) => t,
        None => default,
    }
}

impl GenArg {
    /// The refresh period: the timeout, else `default`.
    pub fn delay_or(&self, default: u64) -> (r: u64)
        ensures
            r == delay_of(self@, default),
    {
        match self.timeout {
            Some(t) => t,
            None => default,
        }
    }

    /// A builder that starts with the prepended markup, or an empty one.
    pub fn get_builder(&self) -> (r: DzenBuilder)
        ensures
            match self.prepend {
                Some(p) => r@ == p@,
                None => r@ == DzenBuilder::new_view(),
            },
    {
        match &self.prepend {
            Some(p) => p.duplicate(),
            None => DzenBuilder::new(),
        }
    }

    /// No timeout, argument or prepended markup.
    pub fn empty() -> (r: Self)
        ensures
            r@ == (GenArgView { timeout: None, arg: None, prepend: None }),
    {
        GenArg { timeout: None, arg: None, prepend: None }
    }

    /// Whether two arguments configure the same thing.
    pub fn same_as(&self, other: &GenArg) -> (r: bool)
        ensures
            r == (self@ == other@),
    {
        let t = self.timeout == other.timeout;
        let a = match (&self.arg, &other.arg) {
            (Some(x), Some(y)) => *x == *y,
            (None, None) => true,
            _ => false,
        };
        let p = match (&self.prepend, &other.prepend) {
            (Some(x), Some(y)) => x.same_as(y),
            (None, None) => true,
            _ => false,
        };
        t && a && p
    }

    /// A copy of the argument.
    pub fn duplicate(&self) -> (r: Self)
        ensures
            r@ == self@,
    {
        GenArg {
            timeout: self.timeout,
            arg: match &self.arg {
                Some(a) => Some(a.clone()),
                None => None,
            },
            prepend: match &self.prepend {
                Some(p) => Some(p.duplicate()),
                None => None,
            },
        }
    }
}

impl GenType {
    /// The position of the kind in the list of kinds; also the discriminator
    /// of the kind's default instance.
    pub open spec fn spec_ordinal(self) -> u8 {
        match self {
            GenType::CPU => 0,
            GenType::RAM => 1,
            GenType::ECHO => 2,
            GenType::TIME => 3,
            GenType::NET => 4,
            GenType::DISK => 5,
            GenType::TEMP => 6,
            GenType::IP => 7,
            GenType::ONE => 8,
            GenType::BAT => 9,
        }
    }

    #[verifier::when_used_as_spec(spec_ordinal)]
    pub fn ordinal(self) -> (r: u8)
        ensures
            r == self.spec_ordinal(),
    {
        match self {
            GenType::CPU => 0,
            GenType::RAM => 1,
            GenType::ECHO => 2,
            GenType::TIME => 3,
            GenType::NET => 4,
            GenType::DISK => 5,
            GenType::TEMP => 6,
            GenType::IP => 7,
            GenType::ONE => 8,
            GenType::BAT => 9,
        }
    }
}

impl GenId {
    pub fn new(gen: GenType, id: u8) -> (r: Self)
        ensures
            r == (GenId { gen, id }),
    {
        GenId { gen: gen, id: id }
    }

    /// The identity of the kind's default instance.
    pub fn from_gen(gen: GenType) -> (r: Self)
        ensures
            r == (GenId { gen, id: gen.spec_ordinal() }),
    {
        Self::new(gen, gen.ordinal())
    }

    /// The discriminator in decimal, the name of an unnamed generator.
    pub fn to_string(&self) -> (r: String)
        ensures
            r@ == decimal(self.id as nat),
    {
        u64_to_string(self.id as u64)
    }

    /// The kind of the generator.
    pub fn gen_type(&self) -> (r: GenType)
        ensures
            r == self.gen,
    {
        self.gen
    }

    /// A number that tells identities apart.
    pub fn key(&self) -> (r: u16)
        ensures
            r == self.gen.spec_ordinal() as u16 * 256 + self.id as u16,
    {
        self.gen.ordinal() as u16 * 256 + self.id as u16
    }
}

} // verus!
