//! Gradient definitions: how a gradient is assembled from the fields that a
//! configuration gives, one at a time and in any order.

use vstd::prelude::*;
use vstd::string::*;
use crate::colour::Colour;
use crate::gradient::{assemble, Field, Gradient, GradientError, GradientView, Mode};

verus! {

/// The field that a key of a gradient definition names.
pub open spec fn field_named(key: Seq<char>) -> Option<Field> {
    if key == "mode"@ {
        Some(Field::Mode)
    } else if key == "colours"@ {
        Some(Field::Colours)
    } else if key == "cycles"@ {
        Some(Field::Cycles)
    } else {
        None
    }
}

/// The mode that a name denotes.
pub open spec fn mode_named(name: Seq<char>) -> Option<Mode> {
    if name == "RGB"@ {
        Some(Mode::Rgb)
    } else if name == "HSV"@ {
        Some(Mode::Hsv)
    } else {
        None
    }
}

/// Whether two texts consist of the same characters.
fn same_text(left: &str, right: &str) -> (same: bool)
    ensures
        same == (left@ == right@),
{
    let n = left.unicode_len();
    if right.unicode_len() != n {
        return false;
    }
    let mut at: usize = 0;
    while at < n
        invariant
            at <= n,
            left@.len() == n,
            right@.len() == n,
            forall|i: int| 0 <= i < at ==> left@[i] == right@[i],
        decreases n - at,
    {
        if left.get_char(at) != right.get_char(at) {
            return false;
        }
        at += 1;
    }
    assert(left@ =~= right@);
    true
}

impl Field {
    /// The key under which the field stands in a definition.
    pub open spec fn key(self) -> Seq<char> {
        match self {
            Field::Mode => "mode"@,
            Field::Colours => "colours"@,
            Field::Cycles => "cycles"@,
        }
    }

    /// Tells which field a key names: `mode`, `colours` or `cycles`, in
    /// lower case.
    pub fn from_key(key: &str) -> (field: Option<Field>)
        ensures
            field == field_named(key@),
    {
        if same_text(key, "mode") {
            Some(Field::Mode)
        } else if same_text(key, "colours") {
            Some(Field::Colours)
        } else if same_text(key, "cycles") {
            Some(Field::Cycles)
        } else {
            None
        }
    }

    /// The key of the field.
    pub fn name(self) -> (name: &'static str)
        ensures
            name@ == self.key(),
    {
        match self {
            Field::Mode => "mode",
            Field::Colours => "colours",
            Field::Cycles => "cycles",
        }
    }
}

/// Every field is found again under its own key.
pub proof fn lemma_field_key_round_trip(field: Field)
    ensures
        field_named(field.key()) == Some(field),
{
    reveal_strlit("mode");
    reveal_strlit("colours");
    reveal_strlit("cycles");
    assert("colours"@.len() != "mode"@.len());
    assert("cycles"@.len() != "mode"@.len());
    assert("cycles"@.len() != "colours"@.len());
}

impl Mode {
    /// Tells which mode a name denotes: `RGB` or `HSV`, in upper case.
    pub fn from_name(name: &str) -> (mode: Option<Mode>)
        ensures
            mode == mode_named(name@),
    {
        if same_text(name, "RGB") {
            Some(Mode::Rgb)
        } else if same_text(name, "HSV") {
            Some(Mode::Hsv)
        } else {
            None
        }
    }
}

/// What has been said of a gradient so far, as plain values.
pub struct Draft {
    pub mode: Option<Mode>,
    pub colours: Option<Seq<Colour>>,
    pub cycles: Option<nat>,
}

impl Draft {
    /// The draft of which nothing has been said.
    pub open spec fn empty() -> Draft {
        Draft { mode: None, colours: None, cycles: None }
    }

    /// Whether the field has been given.
    pub open spec fn has(self, field: Field) -> bool {
        match field {
            Field::Mode => self.mode.is_some(),
            Field::Colours => self.colours.is_some(),
            Field::Cycles => self.cycles.is_some(),
        }
    }

    /// The gradient that the draft defines. The colours are required; the
    /// mode is RGB and the colours run once where nothing else was said.
    pub open spec fn outcome(self) -> Result<GradientView, GradientError> {
        match self.colours {
            None => Err(GradientError::MissingField(Field::Colours)),
            Some(base) => assemble(
                match self.mode {
                    Some(mode) => mode,
                    None => Mode::Rgb,
                },
                base,
                match self.cycles {
                    Some(cycles) => cycles,
                    None => 1,
                },
            ),
        }
    }
}

/// Collects the fields of a gradient definition in the order in which a
/// configuration gives them, each at most once.
pub struct GradientBuilder {
    mode: Option<Mode>,
    colours: Option<Vec<Colour>>,
    cycles: Option<usize>,
}

impl View for GradientBuilder {
    type V = Draft;

    closed spec fn view(&self) -> Draft {
        Draft {
            mode: self.mode,
            colours: match self.colours {
                Some(colours) => Some(colours@),
                None => None,
            },
            cycles: match self.cycles {
                Some(cycles) => Some(cycles as nat),
                None => None,
            },
        }
    }
}

impl GradientBuilder {
    /// A builder to which no field has been given.
    pub fn new() -> (builder: GradientBuilder)
        ensures
            builder@ == Draft::empty(),
    {
        GradientBuilder { mode: None, colours: None, cycles: None }
    }

    /// Whether the field has been given.
    pub fn has(&self, field: Field) -> (given: bool)
        ensures
            given == self@.has(field),
    {
        match field {
            Field::Mode => self.mode.is_some(),
            Field::Colours => self.colours.is_some(),
            Field::Cycles => self.cycles.is_some(),
        }
    }

    /// Gives the mode. A second mode is refused and changes nothing.
    pub fn set_mode(&mut self, mode: Mode) -> (res: Result<(), GradientError>)
        ensures
            old(self)@.has(Field::Mode) ==> res == Err::<(), GradientError>(
                GradientError::DuplicateField(Field::Mode),
            ) && final(self)@ == old(self)@,
            !old(self)@.has(Field::Mode) ==> res == Ok::<(), GradientError>(()) && final(self)@
                == (Draft { mode: Some(mode), ..old(self)@ }),
    {
        if self.mode.is_some() {
            return Err(GradientError::DuplicateField(Field::Mode));
        }
        self.mode = Some(mode);
        Ok(())
    }

    /// Gives the colours. A second list is refused and changes nothing.
    pub fn set_colours(&mut self, colours: Vec<Colour>) -> (res: Result<(), GradientError>)
        ensures
            old(self)@.has(Field::Colours) ==> res == Err::<(), GradientError>(
                GradientError::DuplicateField(Field::Colours),
            ) && final(self)@ == old(self)@,
            !old(self)@.has(Field::Colours) ==> res == Ok::<(), GradientError>(())
                && final(self)@ == (Draft { colours: Some(colours@), ..old(self)@ }),
    {
        if self.colours.is_some() {
            return Err(GradientError::DuplicateField(Field::Colours));
        }
        self.colours = Some(colours);
        Ok(())
    }

    /// Gives the number of cycles. A second number is refused, and so is
    /// zero; neither changes anything.
    pub fn set_cycles(&mut self, cycles: usize) -> (res: Result<(), GradientError>)
        ensures
            old(self)@.has(Field::Cycles) ==> res == Err::<(), GradientError>(
                GradientError::DuplicateField(Field::Cycles),
            ) && final(self)@ == old(self)@,
            !old(self)@.has(Field::Cycles) && cycles == 0 ==> res == Err::<(), GradientError>(
                GradientError::ZeroCycles,
            ) && final(self)@ == old(self)@,
            !old(self)@.has(Field::Cycles) && cycles != 0 ==> res == Ok::<(), GradientError>(())
                && final(self)@ == (Draft { cycles: Some(cycles as nat), ..old(self)@ }),
    {
        if self.cycles.is_some() {
            return Err(GradientError::DuplicateField(Field::Cycles));
        }
        if cycles == 0 {
            return Err(GradientError::ZeroCycles);
        }
        self.cycles = Some(cycles);
        Ok(())
    }

    /// Builds the gradient that the fields define.
    pub fn build(self) -> (res: Result<Gradient, GradientError>)
        ensures
            match res {
                Ok(gradient) => self@.outcome() == Ok::<GradientView, GradientError>(gradient@),
                Err(error) => self@.outcome() == Err::<GradientView, GradientError>(error),
            },
    {
        let mode = match self.mode {
            Some(mode) => mode,
            None => Mode::Rgb,
        };
        let cycles = match self.cycles {
            Some(cycles) => cycles,
            None => 1,
        };
        match self.colours {
            None => Err(GradientError::MissingField(Field::Colours)),
            Some(colours) => Gradient::new(mode, colours.as_slice(), cycles),
        }
    }
}

} // verus!
