use vstd::prelude::*;
use vstd::string::StringExecFns;

verus! {

/// Side length of the plot, in acres.
pub const PLOT_SIZE: usize = 1000;

/// Number of colors an acre can have.
pub const COLOR_COUNT: usize = 16;

/// The colors of the plot's acres, numbered from `White` (0) to `Purple` (15).
#[derive(PartialEq, Eq, Debug, Clone, Copy, Structural)]
pub enum Color {
    White,
    Silver,
    Gray,
    Black,
    Red,
    Maroon,
    Yellow,
    Olive,
    Lime,
    Green,
    Aqua,
    Teal,
    Blue,
    Navy,
    Fuchsia,
    Purple,
}

/// The color numbered `i`; every number from 15 on stands for `Purple`.
pub open spec fn color_of(i: nat) -> Color {
    if i == 0 {
        Color::White
    } else if i == 1 {
        Color::Silver
    } else if i == 2 {
        Color::Gray
    } else if i == 3 {
        Color::Black
    } else if i == 4 {
        Color::Red
    } else if i == 5 {
        Color::Maroon
    } else if i == 6 {
        Color::Yellow
    } else if i == 7 {
        Color::Olive
    } else if i == 8 {
        Color::Lime
    } else if i == 9 {
        Color::Green
    } else if i == 10 {
        Color::Aqua
    } else if i == 11 {
        Color::Teal
    } else if i == 12 {
        Color::Blue
    } else if i == 13 {
        Color::Navy
    } else if i == 14 {
        Color::Fuchsia
    } else {
        Color::Purple
    }
}

/// The style class that paints an acre of color `c`.
pub open spec fn css_class_of(c: Color) -> Seq<char> {
    match c {
        Color::White => "acre_white"@,
        Color::Silver => "acre_silver"@,
        Color::Gray => "acre_gray"@,
        Color::Black => "acre_black"@,
        Color::Red => "acre_red"@,
        Color::Maroon => "acre_maroon"@,
        Color::Yellow => "acre_yellow"@,
        Color::Olive => "acre_olive"@,
        Color::Lime => "acre_lime"@,
        Color::Green => "acre_green"@,
        Color::Aqua => "acre_aqua"@,
        Color::Teal => "acre_teal"@,
        Color::Blue => "acre_blue"@,
        Color::Navy => "acre_navy"@,
        Color::Fuchsia => "acre_fuchsia"@,
        Color::Purple => "acre_purple"@,
    }
}

/// Relies on rand::random_range: a value drawn from `0..n` by the thread's
/// generator. It panics on an empty range, which `n > 0` rules out.
#[verifier::external_body]
fn random_below(n: usize) -> (r: usize)
    requires
        n > 0,
    ensures
        r < n,
{
    rand::random_range(0..n)
}

impl Color {
    /// The style class that paints an acre of this color.
    pub fn css_class(&self) -> (r: &'static str)
        ensures
            r@ == css_class_of(*self),
    {
        match self {
            Self::White => "acre_white",
            Self::Silver => "acre_silver",
            Self::Gray => "acre_gray",
            Self::Black => "acre_black",
            Self::Red => "acre_red",
            Self::Maroon => "acre_maroon",
            Self::Yellow => "acre_yellow",
            Self::Olive => "acre_olive",
            Self::Lime => "acre_lime",
            Self::Green => "acre_green",
            Self::Aqua => "acre_aqua",
            Self::Teal => "acre_teal",
            Self::Blue => "acre_blue",
            Self::Navy => "acre_navy",
            Self::Fuchsia => "acre_fuchsia",
            Self::Purple => "acre_purple",
        }
    }

    /// The color numbered `i`; every number from 15 on gives `Purple`.
    pub fn from_index(i: usize) -> (r: Color)
        ensures
            r == color_of(i as nat),
    {
        match i {
            0 => Self::White,
            1 => Self::Silver,
            2 => Self::Gray,
            3 => Self::Black,
            4 => Self::Red,
            5 => Self::Maroon,
            6 => Self::Yellow,
            7 => Self::Olive,
            8 => Self::Lime,
            9 => Self::Green,
            10 => Self::Aqua,
            11 => Self::Teal,
            12 => Self::Blue,
            13 => Self::Navy,
            14 => Self::Fuchsia,
            _ => Self::Purple,
        }
    }

    /// A color drawn at random, each of the sixteen with the same chance.
    pub fn random() -> (r: Color)
        ensures
            exists|i: nat| i < COLOR_COUNT && r == color_of(i),
    {
        let i = random_below(COLOR_COUNT);
        Self::from_index(i)
    }
}

/// A plot of `PLOT_SIZE` rows of `PLOT_SIZE` acres, each of a random color.
pub fn starter_plot() -> (r: Vec<Vec<Color>>)
    ensures
        r@.len() == PLOT_SIZE,
        forall|i: int| 0 <= i < PLOT_SIZE ==> (#[trigger] r@[i])@.len() == PLOT_SIZE,
{
    let mut plot: Vec<Vec<Color>> = Vec::with_capacity(PLOT_SIZE);
    let mut i: usize = 0;
    while i < PLOT_SIZE
        invariant
            i <= PLOT_SIZE,
            plot@.len() == i,
            forall|k: int| 0 <= k < i ==> (#[trigger] plot@[k])@.len() == PLOT_SIZE,
        decreases PLOT_SIZE - i,
    {
        let mut row: Vec<Color> = Vec::with_capacity(PLOT_SIZE);
        let mut j: usize = 0;
        while j < PLOT_SIZE
            invariant
                j <= PLOT_SIZE,
                row@.len() == j,
            decreases PLOT_SIZE - j,
        {
            row.push(Color::random());
            j += 1;
        }
        plot.push(row);
        i += 1;
    }
    plot
}

/// The decimal digit for `d < 10`.
pub open spec fn digit_char(d: nat) -> char {
    ((d + '0' as nat) as u8) as char
}

/// The decimal numeral of `n`, without leading zeros.
pub open spec fn decimal(n: nat) -> Seq<char>
    decreases n,
{
    if n < 10 {
        seq![digit_char(n)]
    } else {
        decimal(n / 10).push(digit_char(n % 10))
    }
}

fn digit_str(d: usize) -> (r: &'static str)
    requires
        d < 10,
    ensures
        r@ == seq![digit_char(d as nat)],
{
    proof {
        reveal_strlit("0");
        reveal_strlit("1");
        reveal_strlit("2");
        reveal_strlit("3");
        reveal_strlit("4");
        reveal_strlit("5");
        reveal_strlit("6");
        reveal_strlit("7");
        reveal_strlit("8");
        reveal_strlit("9");
    }
    let r = match d {
        0 => "0",
        1 => "1",
        2 => "2",
        3 => "3",
        4 => "4",
        5 => "5",
        6 => "6",
        7 => "7",
        8 => "8",
        _ => "9",
    };
    assert(r@ =~= seq![digit_char(d as nat)]);
    r
}

fn push_decimal(s: &mut String, n: usize)
    ensures
        final(s)@ == old(s)@ + decimal(n as nat),
    decreases n,
{
    if n >= 10 {
        push_decimal(s, n / 10);
    }
    s.append(digit_str(n % 10));
    assert(final(s)@ =~= old(s)@ + decimal(n as nat));
}

/// The element id of the acre at `row` and `col`: `acre_<row>_<col>`.
pub fn acre_id(row: usize, col: usize) -> (r: String)
    ensures
        r@ == "acre_"@ + decimal(row as nat) + seq!['_'] + decimal(col as nat),
{
    let mut s = String::from_str("acre_");
    push_decimal(&mut s, row);
    proof {
        reveal_strlit("_");
    }
    s.append("_");
    push_decimal(&mut s, col);
    s
}

/// A random update for the plot: one entry `[position, color]`, with a
/// position below `PLOT_SIZE * PLOT_SIZE` and a color number below 16.
pub fn random_acre() -> (r: Vec<Vec<usize>>)
    ensures
        r@.len() == 1,
        r@[0]@.len() == 2,
        r@[0]@[0] < PLOT_SIZE * PLOT_SIZE,
        r@[0]@[1] < COLOR_COUNT,
{
    let pos = random_below(PLOT_SIZE * PLOT_SIZE);
    let color = random_below(COLOR_COUNT);
    let acre = vec![pos, color];
    vec![acre]
}

/// The acres listed for a viewer when it connects: the list is made with
/// room for the whole plot, and each entry it holds becomes
/// `[position, random color]`. A new list holds no entry, so the list is
/// empty and the viewer's plot fills in from the updates that follow.
pub fn initial_acres() -> (r: Vec<Vec<usize>>)
    ensures
        r@.len() == 0,
{
    let mut plot: Vec<Vec<usize>> = Vec::with_capacity(PLOT_SIZE * PLOT_SIZE);
    let n = plot.len();
    let mut i: usize = 0;
    while i < n
        invariant
            i <= n,
            plot@.len() == n,
        decreases n - i,
    {
        plot.set(i, vec![i, random_below(COLOR_COUNT)]);
        i += 1;
    }
    plot
}

} // verus!
