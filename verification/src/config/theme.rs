use vstd::prelude::*;
use vstd::string::StringExecFns;

verus! {

/// How a piece of text is set off from the text around it.
#[derive(Debug, Clone, Copy, PartialEq, Eq, Hash, Structural)]
pub enum Formatter {
    Bold,
    Dim,
    Italic,
    Underline,
    Blink,
    Reverse,
    Hidden,
    Strike,
}

#[derive(Debug, Clone, Copy, PartialEq, Eq, Hash, Structural)]
pub enum Color {
    Black,
    Red,
    Green,
    Yellow,
    Blue,
    Magenta,
    Cyan,
    White,
}

/// The number by which a terminal knows a formatter.
pub open spec fn formatter_code(f: Formatter) -> Seq<char> {
    match f {
        Formatter::Bold => seq!['1'],
        Formatter::Dim => seq!['2'],
        Formatter::Italic => seq!['3'],
        Formatter::Underline => seq!['4'],
        Formatter::Blink => seq!['5'],
        Formatter::Reverse => seq!['7'],
        Formatter::Hidden => seq!['8'],
        Formatter::Strike => seq!['9'],
    }
}

/// The last digit of the numbers by which a terminal knows a color.
pub open spec fn color_digit(c: Color) -> char {
    match c {
        Color::Black => '0',
        Color::Red => '1',
        Color::Green => '2',
        Color::Yellow => '3',
        Color::Blue => '4',
        Color::Magenta => '5',
        Color::Cyan => '6',
        Color::White => '7',
    }
}

/// The number by which a terminal knows a color of the text.
pub open spec fn foreground_code(c: Color) -> Seq<char> {
    seq!['3', color_digit(c)]
}

/// The number by which a terminal knows a color behind the text.
pub open spec fn background_code(c: Color) -> Seq<char> {
    seq!['4', color_digit(c)]
}

/// The codes of `modifiers` with a `;` between each two.
pub open spec fn joined_codes(modifiers: Seq<Formatter>) -> Seq<char>
    decreases modifiers.len(),
{
    if modifiers.len() == 0 {
        Seq::empty()
    } else if modifiers.len() == 1 {
        formatter_code(modifiers[0])
    } else {
        joined_codes(modifiers.drop_last()).push(';') + formatter_code(modifiers.last())
    }
}

/// The escape sequence that switches a terminal to a style: the escape
/// character and `[`, the codes of the modifiers, the code of the color
/// of the text, the code of the color behind it where there is one, each
/// parted from the next by `;`, and `m`.
pub open spec fn escape_text(modifiers: Seq<Formatter>, foreground: Color, background: Option<Color>) -> Seq<
    char,
> {
    let head = if modifiers.len() > 0 {
        seq!['\x1b', '['] + joined_codes(modifiers).push(';')
    } else {
        seq!['\x1b', '[']
    };
    let tail = match background {
        Some(color) => seq![';'] + background_code(color),
        None => Seq::empty(),
    };
    (head + foreground_code(foreground) + tail).push('m')
}

impl Formatter {
    pub fn generate_code(&self) -> (r: &'static str)
        ensures
            r@ == formatter_code(*self),
    {
        proof {
            reveal_strlit("1");
            reveal_strlit("2");
            reveal_strlit("3");
            reveal_strlit("4");
            reveal_strlit("5");
            reveal_strlit("7");
            reveal_strlit("8");
            reveal_strlit("9");
        }
        let r = match self {
            Formatter::Bold => "1",
            Formatter::Dim => "2",
            Formatter::Italic => "3",
            Formatter::Underline => "4",
            Formatter::Blink => "5",
            Formatter::Reverse => "7",
            Formatter::Hidden => "8",
            Formatter::Strike => "9",
        };
        r
    }
}

impl Color {
    pub fn foreground_code(&self) -> (r: &'static str)
        ensures
            r@ == foreground_code(*self),
    {
        proof {
            reveal_strlit("30");
            reveal_strlit("31");
            reveal_strlit("32");
            reveal_strlit("33");
            reveal_strlit("34");
            reveal_strlit("35");
            reveal_strlit("36");
            reveal_strlit("37");
        }
        let r = match self {
            Color::Black => "30",
            Color::Red => "31",
            Color::Green => "32",
            Color::Yellow => "33",
            Color::Blue => "34",
            Color::Magenta => "35",
            Color::Cyan => "36",
            Color::White => "37",
        };
        r
    }

    pub fn background_code(&self) -> (r: &'static str)
        ensures
            r@ == background_code(*self),
    {
        proof {
            reveal_strlit("40");
            reveal_strlit("41");
            reveal_strlit("42");
            reveal_strlit("43");
            reveal_strlit("44");
            reveal_strlit("45");
            reveal_strlit("46");
            reveal_strlit("47");
        }
        let r = match self {
            Color::Black => "40",
            Color::Red => "41",
            Color::Green => "42",
            Color::Yellow => "43",
            Color::Blue => "44",
            Color::Magenta => "45",
            Color::Cyan => "46",
            Color::White => "47",
        };
        r
    }
}

/// A look of text on a terminal.
#[derive(Debug)]
pub struct Style {
    pub modifiers: Vec<Formatter>,
    pub foreground: Color,
    pub background: Option<Color>,
    /// The escape sequence that switches a terminal to this style; empty
    /// until it is generated.
    pub escape_sequence: String,
}

/// `after` is `before` with its escape sequence generated.
pub open spec fn style_generated(before: Style, after: Style) -> bool {
    &&& after.modifiers@ == before.modifiers@
    &&& after.foreground == before.foreground
    &&& after.background == before.background
    &&& after.escape_sequence@ == escape_text(before.modifiers@, before.foreground, before.background)
}

impl Style {
    pub fn new(modifiers: Vec<Formatter>, foreground: Color, background: Option<Color>) -> (r: Self)
        ensures
            r.modifiers@ == modifiers@,
            r.foreground == foreground,
            r.background == background,
            r.escape_sequence@ == Seq::<char>::empty(),
    {
        Self { modifiers, foreground, background, escape_sequence: String::new() }
    }

    pub fn generate_escape_sequence(&mut self)
        ensures
            style_generated(*old(self), *final(self)),
    {
        proof {
            reveal_strlit("\x1b[");
            reveal_strlit(";");
            reveal_strlit("m");
        }
        let mut sequence = String::from_str("\x1b[");
        let ghost head = sequence@;
        let mut i: usize = 0;
        while i < self.modifiers.len()
            invariant
                i <= self.modifiers@.len(),
                sequence@ == head + joined_codes(self.modifiers@.take(i as int)),
                *self == *old(self),
            decreases self.modifiers@.len() - i,
        {
            proof {
                reveal_strlit(";");
                assert(self.modifiers@.take(i + 1).drop_last() =~= self.modifiers@.take(i as int));
            }
            if i > 0 {
                sequence.append(";");
            }
            sequence.append(self.modifiers[i].generate_code());
            i += 1;
        }
        assert(self.modifiers@.take(i as int) =~= self.modifiers@);
        if self.modifiers.len() > 0 {
            sequence.append(";");
        }
        sequence.append(self.foreground.foreground_code());
        if let Some(color) = &self.background {
            sequence.append(";");
            sequence.append(color.background_code());
        }
        sequence.append("m");
        assert(sequence@ =~= escape_text(self.modifiers@, self.foreground, self.background));
        self.escape_sequence = sequence;
    }
}

/// The look of a piece of text, and its look while it is selected.
#[derive(Debug)]
pub struct StylePair {
    pub normal: Style,
    pub highlighted: Style,
}

/// `after` is `before` with both escape sequences generated.
pub open spec fn pair_generated(before: StylePair, after: StylePair) -> bool {
    &&& style_generated(before.normal, after.normal)
    &&& style_generated(before.highlighted, after.highlighted)
}

impl StylePair {
    pub fn new(normal: Style, highlighted: Style) -> (r: Self)
        ensures
            r.normal == normal,
            r.highlighted == highlighted,
    {
        Self { normal, highlighted }
    }

    pub fn generate_escape_sequences(&mut self)
        ensures
            pair_generated(*old(self), *final(self)),
    {
        self.highlighted.generate_escape_sequence();
        self.normal.generate_escape_sequence();
    }
}

/// The look of everything that is written to the terminal.
#[derive(Debug)]
pub struct ConfigTheme {
    pub executable: StylePair,
    pub path: StylePair,
    pub flag: StylePair,
    pub arg: StylePair,
    pub text: StylePair,
    pub console_main: StylePair,
    pub console_secondary: StylePair,
    pub error: StylePair,
}

impl ConfigTheme {
    pub fn generate_escape_sequences(&mut self)
        ensures
            pair_generated(old(self).executable, final(self).executable),
            pair_generated(old(self).path, final(self).path),
            pair_generated(old(self).flag, final(self).flag),
            pair_generated(old(self).arg, final(self).arg),
            pair_generated(old(self).text, final(self).text),
            pair_generated(old(self).console_main, final(self).console_main),
            pair_generated(old(self).console_secondary, final(self).console_secondary),
            pair_generated(old(self).error, final(self).error),
    {
        self.executable.generate_escape_sequences();
        self.path.generate_escape_sequences();
        self.flag.generate_escape_sequences();
        self.arg.generate_escape_sequences();
        self.text.generate_escape_sequences();
        self.console_main.generate_escape_sequences();
        self.console_secondary.generate_escape_sequences();
        self.error.generate_escape_sequences();
    }
}

/// A pair of styles without an escape sequence yet: text of the color
/// `foreground` with the modifier `modifier`, if any, which stands on
/// `highlight` while it is selected.
pub open spec fn is_plain_pair(
    pair: StylePair,
    modifier: Option<Formatter>,
    foreground: Color,
    highlight: Color,
) -> bool {
    let modifiers = match modifier {
        Some(f) => seq![f],
        None => Seq::empty(),
    };
    &&& pair.normal.modifiers@ == modifiers
    &&& pair.normal.foreground == foreground
    &&& pair.normal.background == None::<Color>
    &&& pair.normal.escape_sequence@ == Seq::<char>::empty()
    &&& pair.highlighted.modifiers@ == modifiers
    &&& pair.highlighted.foreground == foreground
    &&& pair.highlighted.background == Some(highlight)
    &&& pair.highlighted.escape_sequence@ == Seq::<char>::empty()
}

/// The modifiers of a style with at most one of them.
fn modifiers_of(modifier: Option<Formatter>) -> (r: Vec<Formatter>)
    ensures
        r@ == (match modifier {
            Some(f) => seq![f],
            None => Seq::empty(),
        }),
{
    let mut r: Vec<Formatter> = Vec::new();
    if let Some(f) = modifier {
        r.push(f);
    }
    r
}

/// A pair of styles of one color, which stands on `highlight` while it is
/// selected.
fn plain_pair(modifier: Option<Formatter>, foreground: Color, highlight: Color) -> (r: StylePair)
    ensures
        is_plain_pair(r, modifier, foreground, highlight),
{
    StylePair::new(
        Style::new(modifiers_of(modifier), foreground, None),
        Style::new(modifiers_of(modifier), foreground, Some(highlight)),
    )
}

/// The look that everything has without a configuration.
pub open spec fn is_default_theme(theme: ConfigTheme) -> bool {
    &&& is_plain_pair(theme.executable, None, Color::Green, Color::White)
    &&& is_plain_pair(theme.path, None, Color::Blue, Color::Red)
    &&& is_plain_pair(theme.flag, None, Color::Magenta, Color::Cyan)
    &&& is_plain_pair(theme.arg, None, Color::Yellow, Color::Blue)
    &&& is_plain_pair(theme.text, None, Color::White, Color::Black)
    &&& is_plain_pair(theme.console_main, Some(Formatter::Bold), Color::Yellow, Color::Red)
    &&& is_plain_pair(theme.console_secondary, Some(Formatter::Italic), Color::Cyan, Color::White)
    &&& is_plain_pair(theme.error, Some(Formatter::Bold), Color::Red, Color::Yellow)
}

impl Default for ConfigTheme {
    fn default() -> (r: Self)
        ensures
            is_default_theme(r),
    {
        Self {
            executable: plain_pair(None, Color::Green, Color::White),
            path: plain_pair(None, Color::Blue, Color::Red),
            flag: plain_pair(None, Color::Magenta, Color::Cyan),
            arg: plain_pair(None, Color::Yellow, Color::Blue),
            text: plain_pair(None, Color::White, Color::Black),
            console_main: plain_pair(Some(Formatter::Bold), Color::Yellow, Color::Red),
            console_secondary: plain_pair(Some(Formatter::Italic), Color::Cyan, Color::White),
            error: plain_pair(Some(Formatter::Bold), Color::Red, Color::Yellow),
        }
    }
}

} // verus!
