//! Gradients: which colours a gradient runs through, and in which colour
//! space it interpolates between them.

use vstd::prelude::*;
use crate::colour::Colour;

verus! {

/// The colour space in which a gradient interpolates between its stops.
#[derive(Debug, Copy, Clone, PartialEq, Eq, Structural)]
pub enum Mode {
    /// Each of red, green and blue on its own, in linear RGB.
    Rgb,
    /// Hue, saturation and value, the hue along the shorter arc.
    Hsv,
}

/// A field of a gradient definition.
#[derive(Debug, Copy, Clone, PartialEq, Eq, Structural)]
pub enum Field {
    Mode,
    Colours,
    Cycles,
}

/// Why a gradient definition is refused.
#[derive(Debug, Copy, Clone, PartialEq, Eq, Structural)]
pub enum GradientError {
    /// The field was given twice.
    DuplicateField(Field),
    /// The field is required and was not given.
    MissingField(Field),
    /// The list of colours is empty.
    NoColours,
    /// The number of cycles is zero.
    ZeroCycles,
}

/// `base` laid end to end `cycles` times.
pub open spec fn cycled(base: Seq<Colour>, cycles: nat) -> Seq<Colour> {
    Seq::new(base.len() * cycles, |i: int| base[i % (base.len() as int)])
}

/// The stops of a gradient: at least one colour, in order.
#[derive(Debug)]
pub struct Stops {
    colours: Vec<Colour>,
}

impl View for Stops {
    type V = Seq<Colour>;

    closed spec fn view(&self) -> Seq<Colour> {
        self.colours@
    }
}

impl Stops {
    #[verifier::type_invariant]
    spec fn never_empty(self) -> bool {
        self.colours@.len() >= 1
    }
}

/// A colour gradient over the interval from 0 to 1, its stops evenly spaced.
#[derive(Debug)]
pub enum Gradient {
    Rgb(Stops),
    Hsv(Stops),
}

/// The mathematical content of a gradient.
pub struct GradientView {
    pub mode: Mode,
    pub stops: Seq<Colour>,
}

impl View for Gradient {
    type V = GradientView;

    open spec fn view(&self) -> GradientView {
        match self {
            Gradient::Rgb(stops) => GradientView { mode: Mode::Rgb, stops: stops@ },
            Gradient::Hsv(stops) => GradientView { mode: Mode::Hsv, stops: stops@ },
        }
    }
}

/// The gradient that a mode, a list of colours and a number of cycles
/// define, or the reason why they define none.
pub open spec fn assemble(mode: Mode, base: Seq<Colour>, cycles: nat) -> Result<
    GradientView,
    GradientError,
> {
    if cycles == 0 {
        Err(GradientError::ZeroCycles)
    } else if base.len() == 0 {
        Err(GradientError::NoColours)
    } else {
        Ok(GradientView { mode, stops: cycled(base, cycles) })
    }
}

/// Position `at` of `base` repeated falls on position `at % base.len()` of
/// `base`, and the repetition has `cycles` times the length.
pub proof fn lemma_cycled_index(base: Seq<Colour>, cycles: nat, at: int)
    requires
        0 <= at < base.len() * cycles,
    ensures
        cycled(base, cycles).len() == base.len() * cycles,
        base.len() > 0,
        0 <= at % (base.len() as int) < base.len(),
        cycled(base, cycles)[at] == base[at % (base.len() as int)],
{
    assert(base.len() > 0) by (nonlinear_arith)
        requires
            0 <= at < base.len() * cycles,
    ;
}

/// One more cycle appends the base colours once more.
pub proof fn lemma_cycled_step(base: Seq<Colour>, cycles: nat)
    ensures
        cycled(base, cycles + 1) =~= cycled(base, cycles) + base,
        cycled(base, 0) =~= Seq::<Colour>::empty(),
        cycled(base, 1) =~= base,
{
    let n = base.len() as int;
    assert(n * 0 == 0);
    assert(n * 1 == n);
    assert(n * (cycles + 1) == n * cycles + n) by (nonlinear_arith);
    let longer = cycled(base, cycles + 1);
    let joined = cycled(base, cycles) + base;
    assert(longer.len() == joined.len());
    assert forall|i: int| 0 <= i < longer.len() implies longer[i] == joined[i] by {
        if i >= n * cycles {
            assert((i - n * cycles) + n * cycles == i);
            assert(i % n == i - n * cycles) by (nonlinear_arith)
                requires
                    0 <= i - n * cycles < n,
                    cycles >= 0,
            ;
        }
    }
    assert forall|i: int| 0 <= i < n implies cycled(base, 1)[i] == base[i] by {
        assert(i % n == i) by (nonlinear_arith)
            requires
                0 <= i < n,
        ;
    }
}

/// However often the colours are repeated, the gradient starts at the first
/// of them and ends at the last.
pub proof fn lemma_cycles_keep_endpoints(base: Seq<Colour>, cycles: nat)
    requires
        base.len() > 0,
        cycles > 0,
    ensures
        cycled(base, cycles).len() > 0,
        cycled(base, cycles).first() == base.first(),
        cycled(base, cycles).last() == base.last(),
{
    let n = base.len() as int;
    let total = n * cycles;
    assert(total >= n) by (nonlinear_arith)
        requires
            total == n * cycles,
            n > 0,
            cycles > 0,
    ;
    assert(0int % n == 0) by (nonlinear_arith)
        requires
            n > 0,
    ;
    assert((total - 1) % n == n - 1) by (nonlinear_arith)
        requires
            total == n * cycles,
            n > 0,
            cycles > 0,
    ;
}

impl Clone for Stops {
    fn clone(&self) -> (copy: Stops)
        ensures
            copy@ == self@,
    {
        proof {
            use_type_invariant(self);
        }
        let mut colours: Vec<Colour> = Vec::new();
        let mut at: usize = 0;
        while at < self.colours.len()
            invariant
                at <= self.colours.len(),
                colours@ == self.colours@.subrange(0, at as int),
            decreases self.colours.len() - at,
        {
            colours.push(self.colours[at]);
            at += 1;
            assert(colours@ =~= self.colours@.subrange(0, at as int));
        }
        assert(colours@ =~= self.colours@);
        Stops { colours }
    }
}

impl Clone for Gradient {
    fn clone(&self) -> (copy: Gradient)
        ensures
            copy@ == self@,
    {
        match self {
            Gradient::Rgb(stops) => Gradient::Rgb(stops.clone()),
            Gradient::Hsv(stops) => Gradient::Hsv(stops.clone()),
        }
    }
}

impl Stops {
    /// The number of stops, which is never zero.
    pub fn len(&self) -> (n: usize)
        ensures
            n == self@.len(),
            n >= 1,
    {
        proof {
            use_type_invariant(self);
        }
        self.colours.len()
    }

    /// The stops as a slice, in order.
    pub fn as_slice(&self) -> (colours: &[Colour])
        ensures
            colours@ == self@,
            colours@.len() >= 1,
    {
        proof {
            use_type_invariant(self);
        }
        self.colours.as_slice()
    }

    /// The colour at which the gradient starts.
    pub fn first(&self) -> (colour: Colour)
        ensures
            self@.len() >= 1,
            colour == self@.first(),
    {
        proof {
            use_type_invariant(self);
        }
        self.colours[0]
    }

    /// The colour at which the gradient ends.
    pub fn last(&self) -> (colour: Colour)
        ensures
            self@.len() >= 1,
            colour == self@.last(),
    {
        proof {
            use_type_invariant(self);
        }
        self.colours[self.colours.len() - 1]
    }
}

impl Gradient {
    /// Builds the gradient that runs through `colours`, in order, `cycles`
    /// times over. A definition without colours or without a cycle is
    /// refused.
    pub fn new(mode: Mode, colours: &[Colour], cycles: usize) -> (res: Result<
        Gradient,
        GradientError,
    >)
        ensures
            match res {
                Ok(gradient) => assemble(mode, colours@, cycles as nat) == Ok::<
                    GradientView,
                    GradientError,
                >(gradient@),
                Err(error) => assemble(mode, colours@, cycles as nat) == Err::<
                    GradientView,
                    GradientError,
                >(error),
            },
    {
        if cycles == 0 {
            return Err(GradientError::ZeroCycles);
        }
        if colours.len() == 0 {
            return Err(GradientError::NoColours);
        }
        let mut stops: Vec<Colour> = Vec::new();
        let mut done: usize = 0;
        proof {
            lemma_cycled_step(colours@, 0);
        }
        while done < cycles
            invariant
                done <= cycles,
                stops@ == cycled(colours@, done as nat),
            decreases cycles - done,
        {
            let ghost before = stops@;
            let mut at: usize = 0;
            while at < colours.len()
                invariant
                    at <= colours.len(),
                    stops@ == before + colours@.subrange(0, at as int),
                decreases colours.len() - at,
            {
                stops.push(colours[at]);
                at += 1;
                assert(stops@ =~= before + colours@.subrange(0, at as int));
            }
            proof {
                assert(colours@.subrange(0, at as int) =~= colours@);
                lemma_cycled_step(colours@, done as nat);
            }
            done += 1;
        }
        proof {
            lemma_cycles_keep_endpoints(colours@, cycles as nat);
        }
        let stops = Stops { colours: stops };
        match mode {
            Mode::Rgb => Ok(Gradient::Rgb(stops)),
            Mode::Hsv => Ok(Gradient::Hsv(stops)),
        }
    }

    /// The colour space in which the gradient interpolates.
    pub fn mode(&self) -> (mode: Mode)
        ensures
            mode == self@.mode,
    {
        match self {
            Gradient::Rgb(_) => Mode::Rgb,
            Gradient::Hsv(_) => Mode::Hsv,
        }
    }

    /// The stops of the gradient.
    pub fn stops(&self) -> (stops: &Stops)
        ensures
            stops@ == self@.stops,
    {
        match self {
            Gradient::Rgb(stops) => stops,
            Gradient::Hsv(stops) => stops,
        }
    }
}

/// The stops of the gradient that an interactive view starts with: a red, a
/// green and a blue of equal strength.
pub open spec fn preview_stops() -> Seq<Colour> {
    seq![
        Colour { r: 0xdd, g: 0x22, b: 0x22 },
        Colour { r: 0x22, g: 0xdd, b: 0x22 },
        Colour { r: 0x22, g: 0x22, b: 0xdd },
    ]
}

/// The stops of the gradient that a single render starts with: from dark
/// blue over magenta and gold back to dark blue.
pub open spec fn render_stops() -> Seq<Colour> {
    seq![
        Colour { r: 0x00, g: 0x00, b: 0x8b },
        Colour { r: 0xff, g: 0x00, b: 0xff },
        Colour { r: 0xff, g: 0xd7, b: 0x00 },
        Colour { r: 0x00, g: 0x00, b: 0x8b },
    ]
}

impl Default for Gradient {
    /// The gradient of an interactive view for which none is configured: it
    /// cycles through the hues from red over green to blue.
    fn default() -> (gradient: Gradient)
        ensures
            gradient@ == (GradientView { mode: Mode::Hsv, stops: preview_stops() }),
    {
        let colours = vec![
            Colour { r: 0xdd, g: 0x22, b: 0x22 },
            Colour { r: 0x22, g: 0xdd, b: 0x22 },
            Colour { r: 0x22, g: 0x22, b: 0xdd },
        ];
        assert(colours@ =~= preview_stops());
        Gradient::Hsv(Stops { colours })
    }
}

impl Gradient {
    /// The gradient of a single render for which none is configured: four
    /// stops in RGB that end on the colour they start with.
    pub fn render_default() -> (gradient: Gradient)
        ensures
            gradient@ == (GradientView { mode: Mode::Rgb, stops: render_stops() }),
    {
        let colours = vec![
            Colour { r: 0x00, g: 0x00, b: 0x8b },
            Colour { r: 0xff, g: 0x00, b: 0xff },
            Colour { r: 0xff, g: 0xd7, b: 0x00 },
            Colour { r: 0x00, g: 0x00, b: 0x8b },
        ];
        assert(colours@ =~= render_stops());
        Gradient::Rgb(Stops { colours })
    }
}

} // verus!
