//! The keyboard as the heatmap draws it: the rows of keys, and the frame
//! with its legend around their cells.

use vstd::prelude::*;
use vstd::string::StringExecFns;
use crate::ui::heatmap::{get_key_width, paint, AsciiHeatmap, HeatColor};
use crate::views::views;

verus! {

/// The number of rows of the keyboard.
pub const KEYBOARD_ROWS: usize = 6;

/// The number of entries of the legend.
pub const LEGEND_ENTRIES: usize = 5;

/// The names of the keys of one row of the keyboard, from left to right.
pub open spec fn row_keys(row: int) -> Seq<Seq<char>> {
    if row == 0 {
        seq!["Escape"@, "F1"@, "F2"@, "F3"@, "F4"@, "F5"@, "F6"@, "F7"@, "F8"@, "F9"@, "F10"@, "F11"@, "F12"@]
    } else if row == 1 {
        seq!["`"@, "1"@, "2"@, "3"@, "4"@, "5"@, "6"@, "7"@, "8"@, "9"@, "0"@, "-"@, "="@, "Backspace"@]
    } else if row == 2 {
        seq!["Tab"@, "q"@, "w"@, "e"@, "r"@, "t"@, "y"@, "u"@, "i"@, "o"@, "p"@, "["@, "]"@, "\\"@]
    } else if row == 3 {
        seq!["CapsLock"@, "a"@, "s"@, "d"@, "f"@, "g"@, "h"@, "j"@, "k"@, "l"@, ";"@, "'"@, "Return"@]
    } else if row == 4 {
        seq!["ShiftLeft"@, "z"@, "x"@, "c"@, "v"@, "b"@, "n"@, "m"@, ","@, "."@, "/"@, "ShiftRight"@]
    } else if row == 5 {
        seq!["ControlLeft"@, "MetaLeft"@, "Alt"@, "Space"@, "AltGr"@, "MetaRight"@, "ControlRight"@]
    } else {
        Seq::empty()
    }
}

/// The character sequences of a row of names.
pub open spec fn names_of(keys: Seq<&'static str>) -> Seq<Seq<char>> {
    Seq::new(keys.len(), |k: int| keys[k]@)
}

/// The keys of one row of the keyboard, from left to right.
pub fn keyboard_row(row: usize) -> (keys: Vec<&'static str>)
    ensures
        names_of(keys@) == row_keys(row as int),
{
    let keys = if row == 0 {
        vec!["Escape", "F1", "F2", "F3", "F4", "F5", "F6", "F7", "F8", "F9", "F10", "F11", "F12"]
    } else if row == 1 {
        vec!["`", "1", "2", "3", "4", "5", "6", "7", "8", "9", "0", "-", "=", "Backspace"]
    } else if row == 2 {
        vec!["Tab", "q", "w", "e", "r", "t", "y", "u", "i", "o", "p", "[", "]", "\\"]
    } else if row == 3 {
        vec!["CapsLock", "a", "s", "d", "f", "g", "h", "j", "k", "l", ";", "'", "Return"]
    } else if row == 4 {
        vec!["ShiftLeft", "z", "x", "c", "v", "b", "n", "m", ",", ".", "/", "ShiftRight"]
    } else if row == 5 {
        vec!["ControlLeft", "MetaLeft", "Alt", "Space", "AltGr", "MetaRight", "ControlRight"]
    } else {
        Vec::new()
    };
    assert(names_of(keys@) =~= row_keys(row as int));
    keys
}

/// The colour and the text of one entry of the legend.
pub fn legend_entry(entry: usize) -> (r: (HeatColor, &'static str))
    ensures
        entry == 0 ==> r.0 == HeatColor::DarkGrey && r.1@ == "░ Cold"@,
        entry == 1 ==> r.0 == HeatColor::Blue && r.1@ == "▒ Low"@,
        entry == 2 ==> r.0 == HeatColor::Green && r.1@ == "▓ Med"@,
        entry == 3 ==> r.0 == HeatColor::Yellow && r.1@ == "█ High"@,
        entry >= 4 ==> r.0 == HeatColor::Red && r.1@ == "█ Hot"@,
{
    if entry == 0 {
        (HeatColor::DarkGrey, "░ Cold")
    } else if entry == 1 {
        (HeatColor::Blue, "▒ Low")
    } else if entry == 2 {
        (HeatColor::Green, "▓ Med")
    } else if entry == 3 {
        (HeatColor::Yellow, "█ High")
    } else {
        (HeatColor::Red, "█ Hot")
    }
}

/// The lines above the rows of keys.
pub open spec fn frame_head() -> Seq<char> {
    "\n┌──────────────────────────────────────────────────────────────────────────────┐\n│                          ⌨️  KEYBOARD HEATMAP                                │\n├──────────────────────────────────────────────────────────────────────────────┤\n│                                                                              │\n"@
}

/// What a row of keys begins with.
pub open spec fn row_head() -> Seq<char> {
    "│  "@
}

/// What follows a row of keys: the end of its line, and an empty line of the frame.
pub open spec fn row_tail() -> Seq<char> {
    "\n│                                                                              │\n"@
}

/// What the legend begins with.
pub open spec fn legend_head() -> Seq<char> {
    "├──────────────────────────────────────────────────────────────────────────────┤\n│  Heat Legend: "@
}

/// What follows the legend.
pub open spec fn frame_foot() -> Seq<char> {
    "                                  │\n└──────────────────────────────────────────────────────────────────────────────┘\n"@
}

/// The texts in order, each followed by a space.
pub open spec fn spaced(texts: Seq<Seq<char>>) -> Seq<char>
    decreases texts.len(),
{
    if texts.len() == 0 {
        Seq::empty()
    } else {
        spaced(texts.drop_last()) + texts.last() + seq![' ']
    }
}

/// The rows of cells in order, each within the frame.
pub open spec fn framed_rows(rows: Seq<Seq<Seq<char>>>) -> Seq<char>
    decreases rows.len(),
{
    if rows.len() == 0 {
        Seq::empty()
    } else {
        framed_rows(rows.drop_last()) + row_head() + spaced(rows.last()) + row_tail()
    }
}

/// The entries of the legend in order, with a space between neighbours.
pub open spec fn legend_line(legend: Seq<Seq<char>>) -> Seq<char>
    decreases legend.len(),
{
    if legend.len() == 0 {
        Seq::empty()
    } else if legend.len() == 1 {
        legend[0]
    } else {
        legend_line(legend.drop_last()) + seq![' '] + legend.last()
    }
}

/// The heatmap drawn from the cells of its keys and the entries of its legend.
pub open spec fn drawn(rows: Seq<Seq<Seq<char>>>, legend: Seq<Seq<char>>) -> Seq<char> {
    frame_head() + framed_rows(rows) + legend_head() + legend_line(legend) + frame_foot()
}

/// The character sequences of rows of strings.
pub open spec fn row_texts(rows: Seq<Vec<String>>) -> Seq<Seq<Seq<char>>> {
    Seq::new(rows.len(), |r: int| views(rows[r]@))
}

/// Draws the heatmap from the cells of its keys and the entries of its legend.
pub fn draw(rows: &Vec<Vec<String>>, legend: &Vec<String>) -> (output: String)
    ensures
        output@ == drawn(row_texts(rows@), views(legend@)),
{
    let ghost cells = row_texts(rows@);
    let ghost entries = views(legend@);
    proof {
        reveal_strlit(" ");
        assert(" "@ =~= seq![' ']);
    }
    let mut output = String::new();
    output.append(
        "\n┌──────────────────────────────────────────────────────────────────────────────┐\n│                          ⌨️  KEYBOARD HEATMAP                                │\n├──────────────────────────────────────────────────────────────────────────────┤\n│                                                                              │\n",
    );
    assert(output@ =~= frame_head());
    let mut r: usize = 0;
    assert(output@ =~= frame_head() + framed_rows(cells.take(0)));
    while r < rows.len()
        invariant
            r <= rows@.len(),
            cells == row_texts(rows@),
            " "@ == seq![' '],
            output@ == frame_head() + framed_rows(cells.take(r as int)),
        decreases rows@.len() - r,
    {
        let ghost before = output@;
        let row = &rows[r];
        let ghost texts = cells[r as int];
        output.append("│  ");
        let mut k: usize = 0;
        assert(output@ =~= before + row_head() + spaced(texts.take(0)));
        while k < row.len()
            invariant
                k <= row@.len(),
                texts.len() == row@.len(),
                forall|i: int| 0 <= i < row@.len() ==> texts[i] == row@[i]@,
                " "@ == seq![' '],
                output@ == before + row_head() + spaced(texts.take(k as int)),
            decreases row@.len() - k,
        {
            proof {
                assert(texts.take(k + 1).drop_last() =~= texts.take(k as int));
                assert(texts.take(k + 1).last() == row@[k as int]@);
            }
            output.append(row[k].as_str());
            output.append(" ");
            assert(output@ =~= before + row_head() + spaced(texts.take(k + 1)));
            k += 1;
        }
        output.append(
            "\n│                                                                              │\n",
        );
        proof {
            assert(texts.take(k as int) =~= texts);
            assert(cells.take(r + 1).drop_last() =~= cells.take(r as int));
            assert(cells.take(r + 1).last() == texts);
            assert(output@ =~= frame_head() + framed_rows(cells.take(r + 1)));
        }
        r += 1;
    }
    proof {
        assert(cells.take(r as int) =~= cells);
    }
    output.append(
        "├──────────────────────────────────────────────────────────────────────────────┤\n│  Heat Legend: ",
    );
    let ghost upto = output@;
    let mut e: usize = 0;
    assert(output@ =~= upto + legend_line(entries.take(0)));
    while e < legend.len()
        invariant
            e <= legend@.len(),
            entries == views(legend@),
            " "@ == seq![' '],
            output@ == upto + legend_line(entries.take(e as int)),
        decreases legend@.len() - e,
    {
        proof {
            assert(entries.take(e + 1).drop_last() =~= entries.take(e as int));
            assert(entries.take(e + 1).last() == legend@[e as int]@);
            if e == 0 {
                assert(entries.take(1)[0] == legend@[0]@);
            }
        }
        if e > 0 {
            output.append(" ");
        }
        output.append(legend[e].as_str());
        assert(output@ =~= upto + legend_line(entries.take(e + 1)));
        e += 1;
    }
    proof {
        assert(entries.take(e as int) =~= entries);
    }
    output.append(
        "                                  │\n└──────────────────────────────────────────────────────────────────────────────┘\n",
    );
    assert(output@ =~= drawn(cells, entries));
    output
}

/// There is a row of cells for each row of the keyboard, with a cell for each of its keys.
pub open spec fn has_keyboard_shape(rows: Seq<Seq<Seq<char>>>) -> bool {
    &&& rows.len() == KEYBOARD_ROWS
    &&& forall|r: int| 0 <= r < rows.len() ==> (#[trigger] rows[r]).len() == row_keys(r).len()
}

impl AsciiHeatmap {
    /// The heatmap as the terminal draws it: the cell of every key of the
    /// keyboard, styled in its colour, within the frame, and the styled
    /// entries of the legend below.
    pub fn render(&self) -> (output: String)
        requires
            self.wf(),
        ensures
            exists|rows: Seq<Seq<Seq<char>>>, legend: Seq<Seq<char>>|
                #![auto]
                has_keyboard_shape(rows) && legend.len() == LEGEND_ENTRIES && output@ == drawn(
                    rows,
                    legend,
                ),
    {
        let mut rows: Vec<Vec<String>> = Vec::new();
        let mut r: usize = 0;
        while r < KEYBOARD_ROWS
            invariant
                r <= KEYBOARD_ROWS,
                rows@.len() == r,
                forall|i: int| 0 <= i < r ==> (#[trigger] rows@[i])@.len() == row_keys(i).len(),
                self.wf(),
            decreases KEYBOARD_ROWS - r,
        {
            let keys = keyboard_row(r);
            let mut cells: Vec<String> = Vec::new();
            let mut k: usize = 0;
            assert(names_of(keys@).len() == keys@.len());
            while k < keys.len()
                invariant
                    k <= keys@.len(),
                    cells@.len() == k,
                    self.wf(),
                decreases keys@.len() - k,
            {
                let key = keys[k];
                cells.push(self.render_key(key, get_key_width(key)));
                k += 1;
            }
            rows.push(cells);
            r += 1;
        }
        let mut legend: Vec<String> = Vec::new();
        let mut e: usize = 0;
        while e < LEGEND_ENTRIES
            invariant
                e <= LEGEND_ENTRIES,
                legend@.len() == e,
            decreases LEGEND_ENTRIES - e,
        {
            let (color, text) = legend_entry(e);
            legend.push(paint(text, color));
            e += 1;
        }
        proof {
            let shaped = row_texts(rows@);
            assert forall|r: int| 0 <= r < shaped.len() implies (#[trigger] shaped[r]).len()
                == row_keys(r).len() by {
                assert(rows@[r]@.len() == row_keys(r).len());
            }
        }
        draw(&rows, &legend)
    }
}

} // verus!
