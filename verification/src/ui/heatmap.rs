//! The keyboard heatmap: how hot each key of the layout is, and how its cell is drawn.

use vstd::prelude::*;
use vstd::string::StringExecFns;
use crate::stats::calculator::AllStats;
use crate::stats::ranking::NameCount;
use crate::views::views;
use crate::stats::ratio::Ratio;
use crate::text::{lowercased, same_text, to_lower, to_upper, uppercased};

verus! {

/// What a key is called on its cell: a short label or symbol for the keys
/// that have one, and the key's own name otherwise.
pub open spec fn display_name(key: Seq<char>) -> Seq<char> {
    if key == "Escape"@ {
        "ESC"@
    } else if key == "Backspace"@ {
        "⌫"@
    } else if key == "Tab"@ {
        "TAB"@
    } else if key == "CapsLock"@ {
        "CAPS"@
    } else if key == "Return"@ || key == "Enter"@ {
        "⏎"@
    } else if key == "ShiftLeft"@ || key == "ShiftRight"@ {
        "⇧"@
    } else if key == "ControlLeft"@ || key == "ControlRight"@ {
        "CTRL"@
    } else if key == "MetaLeft"@ || key == "MetaRight"@ {
        "⌘"@
    } else if key == "Alt"@ || key == "AltGr"@ {
        "ALT"@
    } else if key == "Space"@ {
        "SPACE"@
    } else if key == "UpArrow"@ {
        "↑"@
    } else if key == "DownArrow"@ {
        "↓"@
    } else if key == "LeftArrow"@ {
        "←"@
    } else if key == "RightArrow"@ {
        "→"@
    } else {
        key
    }
}

/// What a key is called on its cell.
pub fn get_display_name<'a>(key: &'a str) -> (r: &'a str)
    ensures
        r@ == display_name(key@),
{
    if same_text(key, "Escape") {
        "ESC"
    } else if same_text(key, "Backspace") {
        "⌫"
    } else if same_text(key, "Tab") {
        "TAB"
    } else if same_text(key, "CapsLock") {
        "CAPS"
    } else if same_text(key, "Return") || same_text(key, "Enter") {
        "⏎"
    } else if same_text(key, "ShiftLeft") || same_text(key, "ShiftRight") {
        "⇧"
    } else if same_text(key, "ControlLeft") || same_text(key, "ControlRight") {
        "CTRL"
    } else if same_text(key, "MetaLeft") || same_text(key, "MetaRight") {
        "⌘"
    } else if same_text(key, "Alt") || same_text(key, "AltGr") {
        "ALT"
    } else if same_text(key, "Space") {
        "SPACE"
    } else if same_text(key, "UpArrow") {
        "↑"
    } else if same_text(key, "DownArrow") {
        "↓"
    } else if same_text(key, "LeftArrow") {
        "←"
    } else if same_text(key, "RightArrow") {
        "→"
    } else {
        key
    }
}

/// The name begins with `F` and takes at most three bytes, as the names of
/// the function keys do.
pub open spec fn is_function_key_name(key: Seq<char>) -> bool {
    key.len() > 0 && key[0] == 'F' && vstd::utf8::encode_utf8(key).len() <= 3
}

/// The width of a key's cell in characters.
pub open spec fn key_width(key: Seq<char>) -> nat {
    if key == "Backspace"@ {
        8
    } else if key == "Tab"@ {
        5
    } else if key == "CapsLock"@ {
        6
    } else if key == "Return"@ || key == "Enter"@ {
        8
    } else if key == "ShiftLeft"@ {
        8
    } else if key == "ShiftRight"@ {
        10
    } else if key == "Space"@ {
        30
    } else if key == "ControlLeft"@ || key == "ControlRight"@ {
        6
    } else if key == "MetaLeft"@ || key == "MetaRight"@ {
        5
    } else if key == "Alt"@ || key == "AltGr"@ {
        5
    } else if key == "Escape"@ {
        4
    } else if is_function_key_name(key) {
        3
    } else {
        4
    }
}

/// The width of a key's cell in characters.
pub fn get_key_width(key: &str) -> (w: usize)
    ensures
        w == key_width(key@),
{
    if same_text(key, "Backspace") {
        8
    } else if same_text(key, "Tab") {
        5
    } else if same_text(key, "CapsLock") {
        6
    } else if same_text(key, "Return") || same_text(key, "Enter") {
        8
    } else if same_text(key, "ShiftLeft") {
        8
    } else if same_text(key, "ShiftRight") {
        10
    } else if same_text(key, "Space") {
        30
    } else if same_text(key, "ControlLeft") || same_text(key, "ControlRight") {
        6
    } else if same_text(key, "MetaLeft") || same_text(key, "MetaRight") {
        5
    } else if same_text(key, "Alt") || same_text(key, "AltGr") {
        5
    } else if same_text(key, "Escape") {
        4
    } else if key.unicode_len() > 0 && key.get_char(0) == 'F' && key.as_bytes().len() <= 3 {
        3
    } else {
        4
    }
}

/// A colour of the heat scale.
#[derive(Debug, Clone, Copy, PartialEq, Eq, Structural)]
pub enum HeatColor {
    DarkGrey,
    Blue,
    Cyan,
    Green,
    Yellow,
    Red,
    Magenta,
    Rgb { r: u8, g: u8, b: u8 },
}

/// The colour for a key pressed `count` times where the most pressed key
/// was pressed `max` times. The scale goes by the share `count / max`:
/// nothing is dark grey; under a tenth is blue, under a quarter cyan, under
/// two fifths green, under eleven twentieths yellow, under seven tenths
/// orange, under seventeen twentieths red, and the rest magenta.
pub open spec fn heat_color(count: int, max: int) -> HeatColor {
    if count == 0 {
        HeatColor::DarkGrey
    } else if count * 10 < max {
        HeatColor::Blue
    } else if count * 4 < max {
        HeatColor::Cyan
    } else if count * 5 < max * 2 {
        HeatColor::Green
    } else if count * 20 < max * 11 {
        HeatColor::Yellow
    } else if count * 10 < max * 7 {
        HeatColor::Rgb { r: 255, g: 165, b: 0 }
    } else if count * 20 < max * 17 {
        HeatColor::Red
    } else {
        HeatColor::Rgb { r: 255, g: 0, b: 255 }
    }
}

/// The colour for the intensity `count / max`.
pub fn get_heat_color(count: i64, max: i64) -> (color: HeatColor)
    requires
        max > 0,
    ensures
        color == heat_color(count as int, max as int),
{
    let c: i128 = count as i128;
    let m: i128 = max as i128;
    if c == 0 {
        HeatColor::DarkGrey
    } else if c * 10 < m {
        HeatColor::Blue
    } else if c * 4 < m {
        HeatColor::Cyan
    } else if c * 5 < m * 2 {
        HeatColor::Green
    } else if c * 20 < m * 11 {
        HeatColor::Yellow
    } else if c * 10 < m * 7 {
        HeatColor::Rgb { r: 255, g: 165, b: 0 }
    } else if c * 20 < m * 17 {
        HeatColor::Red
    } else {
        HeatColor::Rgb { r: 255, g: 0, b: 255 }
    }
}

/// The shade character for a key pressed `count` times where the most
/// pressed key was pressed `max` times: light for nothing, medium under a
/// quarter, dark under a half, and full from there.
pub open spec fn heat_char(count: int, max: int) -> char {
    if count == 0 {
        '░'
    } else if count * 4 < max {
        '▒'
    } else if count * 2 < max {
        '▓'
    } else {
        '█'
    }
}

/// The shade character for the intensity `count / max`.
pub fn get_heat_char(count: i64, max: i64) -> (shade: char)
    requires
        max > 0,
    ensures
        shade == heat_char(count as int, max as int),
{
    let c: i128 = count as i128;
    let m: i128 = max as i128;
    if c == 0 {
        '░'
    } else if c * 4 < m {
        '▒'
    } else if c * 2 < m {
        '▓'
    } else {
        '█'
    }
}

/// `name` stands for `key` when letter case is set aside: the two agree in
/// lowercase or in uppercase, or `name` is the uppercase form of `key`.
pub open spec fn matches_loosely(name: Seq<char>, key: Seq<char>) -> bool {
    ||| lowercased(name) == lowercased(key)
    ||| uppercased(name) == uppercased(key)
    ||| name == uppercased(key)
}

/// The first position from `from` on at which an entry carries the name `key`.
pub open spec fn first_exact(entries: Seq<(Seq<char>, int)>, key: Seq<char>, from: int) -> Option<
    int,
>
    decreases entries.len() - from,
{
    if from < 0 || from >= entries.len() {
        None
    } else if entries[from].0 == key {
        Some(from)
    } else {
        first_exact(entries, key, from + 1)
    }
}

/// The first position from `from` on at which an entry's name stands for `key` loosely.
pub open spec fn first_loose(entries: Seq<(Seq<char>, int)>, key: Seq<char>, from: int) -> Option<
    int,
>
    decreases entries.len() - from,
{
    if from < 0 || from >= entries.len() {
        None
    } else if matches_loosely(entries[from].0, key) {
        Some(from)
    } else {
        first_loose(entries, key, from + 1)
    }
}

/// The count that the entries give for `key`: that of the first entry of
/// this very name; failing that, that of the first entry whose name stands
/// for `key` loosely; failing that, zero.
pub open spec fn count_for(entries: Seq<(Seq<char>, int)>, key: Seq<char>) -> int {
    match first_exact(entries, key, 0) {
        Some(i) => entries[i].1,
        None => match first_loose(entries, key, 0) {
            Some(i) => entries[i].1,
            None => 0,
        },
    }
}

/// The greatest count among the entries; one where there is no entry.
pub open spec fn max_count(entries: Seq<(Seq<char>, int)>) -> int
    decreases entries.len(),
{
    if entries.len() == 0 {
        1
    } else if entries.len() == 1 {
        entries[0].1
    } else {
        let rest = max_count(entries.drop_last());
        if entries.last().1 > rest {
            entries.last().1
        } else {
            rest
        }
    }
}

/// Where every count is positive, so is the greatest.
pub proof fn lemma_max_count_positive(entries: Seq<(Seq<char>, int)>)
    requires
        forall|i: int| 0 <= i < entries.len() ==> (#[trigger] entries[i]).1 >= 1,
    ensures
        max_count(entries) >= 1,
    decreases entries.len(),
{
    if entries.len() > 1 {
        let rest = entries.drop_last();
        assert forall|i: int| 0 <= i < rest.len() implies (#[trigger] rest[i]).1 >= 1 by {
            assert(rest[i] == entries[i]);
        }
        lemma_max_count_positive(rest);
    }
}

/// `text` centred in a field of `width` characters: padded with spaces on
/// both sides, the odd space on the right; unchanged where it is as long as
/// the field or longer.
pub open spec fn centered(text: Seq<char>, width: nat) -> Seq<char> {
    if text.len() >= width {
        text
    } else {
        let total = width - text.len();
        let left = total / 2;
        Seq::new(left as nat, |i: int| ' ') + text + Seq::new((total - left) as nat, |i: int| ' ')
    }
}

/// Centres `text` in a field of `width` characters.
pub fn center(text: &str, width: usize) -> (r: String)
    ensures
        r@ == centered(text@, width as nat),
{
    let n: usize = text.unicode_len();
    if n >= width {
        return text.to_owned();
    }
    let total: usize = width - n;
    let left: usize = total / 2;
    let right: usize = total - left;
    let mut r = String::new();
    proof {
        reveal_strlit(" ");
        assert(" "@ =~= seq![' ']);
    }
    let mut i: usize = 0;
    while i < left
        invariant
            i <= left,
            " "@ == seq![' '],
            r@ == Seq::new(i as nat, |k: int| ' '),
        decreases left - i,
    {
        r.append(" ");
        assert(r@ =~= Seq::new((i + 1) as nat, |k: int| ' '));
        i += 1;
    }
    r.append(text);
    let ghost head = r@;
    let mut j: usize = 0;
    while j < right
        invariant
            j <= right,
            " "@ == seq![' '],
            r@ == head + Seq::new(j as nat, |k: int| ' '),
        decreases right - j,
    {
        r.append(" ");
        assert(r@ =~= head + Seq::new((j + 1) as nat, |k: int| ' '));
        j += 1;
    }
    r
}

/// `whole` holds `part` as it is, between what stands before and after it.
pub open spec fn embeds(whole: Seq<char>, part: Seq<char>) -> bool {
    exists|head: Seq<char>, tail: Seq<char>| whole == head + part + tail
}

/// `styled` is `text` as a terminal takes it in some colour: the text as it
/// is between the sequences that set and reset the colour, or nothing at all
/// on a console that takes no such sequences.
pub open spec fn is_styled(styled: Seq<char>, text: Seq<char>) -> bool {
    styled.len() == 0 || embeds(styled, text)
}

/// Hands `text` to crossterm's `Stylize::with` with the colour that
/// corresponds to `color` and formats the styled content. crossterm writes
/// the sequence that sets the foreground colour, then the text as it is,
/// then the sequence that resets the colour; on a Windows console without
/// support for escape sequences it writes nothing. Which sequences it writes
/// depends on the environment, which can switch colours off, so no more is
/// claimed than that the text stands between them.
#[verifier::external_body]
pub(crate) fn paint(text: &str, color: HeatColor) -> (r: String)
    ensures
        is_styled(r@, text@),
{
    let c = match color {
        HeatColor::DarkGrey => crossterm::style::Color::DarkGrey,
        HeatColor::Blue => crossterm::style::Color::Blue,
        HeatColor::Cyan => crossterm::style::Color::Cyan,
        HeatColor::Green => crossterm::style::Color::Green,
        HeatColor::Yellow => crossterm::style::Color::Yellow,
        HeatColor::Red => crossterm::style::Color::Red,
        HeatColor::Magenta => crossterm::style::Color::Magenta,
        HeatColor::Rgb { r, g, b } => crossterm::style::Color::Rgb { r, g, b },
    };
    format!("{}", crossterm::style::Stylize::with(text, c))
}

/// The heat of each key, taken from a snapshot.
#[derive(Debug)]
pub struct AsciiHeatmap {
    key_frequencies: Vec<NameCount>,
    max_frequency: i64,
}

impl AsciiHeatmap {
    /// The keys with their counts.
    pub closed spec fn frequencies(&self) -> Seq<(Seq<char>, int)> {
        views(self.key_frequencies@)
    }

    /// The count by which every count is measured.
    pub closed spec fn scale(&self) -> int {
        self.max_frequency as int
    }

    /// The scale is positive.
    pub open spec fn wf(&self) -> bool {
        self.scale() > 0
    }

    /// Whether the scale is positive.
    pub fn has_positive_scale(&self) -> (r: bool)
        ensures
            r == self.wf(),
    {
        self.max_frequency > 0
    }

    /// The heatmap of a snapshot: its key frequencies, measured by the greatest of them.
    pub fn new(stats: &AllStats) -> (r: Self)
        ensures
            r.frequencies() == stats@.key_frequency_map,
            r.scale() == max_count(stats@.key_frequency_map),
            (forall|i: int|
                0 <= i < stats@.key_frequency_map.len() ==> (
                #[trigger] stats@.key_frequency_map[i]).1 >= 1) ==> r.wf(),
    {
        let entries = &stats.key_frequency_map;
        let ghost listed = views(entries@);
        let mut key_frequencies: Vec<NameCount> = Vec::new();
        let mut max_frequency: i64 = 1;
        let mut i: usize = 0;
        while i < entries.len()
            invariant
                i <= entries@.len(),
                listed == views(entries@),
                views(key_frequencies@) == listed.take(i as int),
                max_frequency == max_count(listed.take(i as int)),
            decreases entries@.len() - i,
        {
            proof {
                assert(listed.take(i + 1).drop_last() =~= listed.take(i as int));
                assert(listed.take(i + 1).last() == entries@[i as int]@);
            }
            if i == 0 || entries[i].count > max_frequency {
                max_frequency = entries[i].count;
            }
            key_frequencies.push(entries[i].clone());
            proof {
                assert(views(key_frequencies@) =~= listed.take(i + 1));
            }
            i += 1;
        }
        proof {
            assert(listed.take(i as int) =~= listed);
            assert(listed == stats@.key_frequency_map);
            if forall|i: int|
                0 <= i < stats@.key_frequency_map.len() ==> (
                #[trigger] stats@.key_frequency_map[i]).1 >= 1 {
                lemma_max_count_positive(listed);
            }
        }
        AsciiHeatmap { key_frequencies, max_frequency }
    }

    /// The count for a key.
    pub fn get_count(&self, key: &str) -> (count: i64)
        ensures
            count == count_for(self.frequencies(), key@),
    {
        let entries = &self.key_frequencies;
        let ghost listed = self.frequencies();
        let mut i: usize = 0;
        while i < entries.len()
            invariant
                i <= entries@.len(),
                listed == views(entries@),
                listed == self.frequencies(),
                first_exact(listed, key@, 0) == first_exact(listed, key@, i as int),
            decreases entries@.len() - i,
        {
            assert(listed[i as int] == entries@[i as int]@);
            if same_text(entries[i].name.as_str(), key) {
                assert(first_exact(listed, key@, i as int) == Some(i as int));
                return entries[i].count;
            }
            assert(first_exact(listed, key@, i as int) == first_exact(listed, key@, i + 1));
            i += 1;
        }
        let key_lower = to_lower(key);
        let key_upper = to_upper(key);
        let mut j: usize = 0;
        while j < entries.len()
            invariant
                j <= entries@.len(),
                listed == views(entries@),
                listed == self.frequencies(),
                first_exact(listed, key@, 0) is None,
                key_lower@ == lowercased(key@),
                key_upper@ == uppercased(key@),
                first_loose(listed, key@, 0) == first_loose(listed, key@, j as int),
            decreases entries@.len() - j,
        {
            assert(listed[j as int] == entries@[j as int]@);
            let name = entries[j].name.as_str();
            if same_text(to_lower(name).as_str(), key_lower.as_str()) || same_text(
                to_upper(name).as_str(),
                key_upper.as_str(),
            ) || same_text(name, key_upper.as_str()) {
                assert(first_loose(listed, key@, j as int) == Some(j as int));
                return entries[j].count;
            }
            assert(first_loose(listed, key@, j as int) == first_loose(listed, key@, j + 1));
            j += 1;
        }
        0
    }

    /// The intensity of a key: its count over the scale.
    pub fn get_intensity(&self, key: &str) -> (r: Ratio)
        requires
            self.wf(),
        ensures
            r == (Ratio {
                num: count_for(self.frequencies(), key@) as i128,
                den: self.scale() as i128,
            }),
            r.wf(),
    {
        Ratio { num: self.get_count(key) as i128, den: self.max_frequency as i128 }
    }

    /// The text and the colour of a key's cell: the key's display name
    /// centred in `width` characters, in the colour of the key's intensity.
    pub fn key_cell(&self, key: &str, width: usize) -> (cell: (String, HeatColor))
        requires
            self.wf(),
        ensures
            cell.0@ == centered(display_name(key@), width as nat),
            cell.1 == heat_color(count_for(self.frequencies(), key@), self.scale()),
    {
        let count = self.get_count(key);
        let color = get_heat_color(count, self.max_frequency);
        let display = get_display_name(key);
        (center(display, width), color)
    }

    /// A key's cell as the terminal draws it: the text of
    /// [`AsciiHeatmap::key_cell`], styled in its colour. The result holds
    /// the key's display name, centred in `width` characters, between the
    /// sequences that set and reset the colour.
    pub fn render_key(&self, key: &str, width: usize) -> (r: String)
        requires
            self.wf(),
        ensures
            is_styled(r@, centered(display_name(key@), width as nat)),
    {
        let (text, color) = self.key_cell(key, width);
        paint(text.as_str(), color)
    }
}

} // verus!
