//! Popovers, and the rows that go in them.

use vstd::prelude::*;

use crate::chrome::Fill;
use crate::single::Single;
use crate::theme::{white, Color, MOCHI};

verus! {

/// Which edge of the trigger the panel lines up with.
#[derive(Clone, Copy, Debug, PartialEq, Eq, Structural)]
pub enum Align {
    Start,
    End,
}

impl Align {
    /// Where the panel begins, given where it would begin lined up with either
    /// edge.
    pub fn place(self, start: Single, end: Single) -> (r: Single)
        ensures
            r == (match self {
                Align::Start => start,
                Align::End => end,
            }),
    {
        match self {
            Align::Start => start,
            Align::End => end,
        }
    }
}

/// What a popover met with this frame.
#[derive(Clone, Copy, Debug, PartialEq, Eq, Structural)]
pub struct PopupInput {
    /// Its contents asked for it to be closed.
    pub close: bool,
    /// A button of the pointer went down, and where: over the panel, over the
    /// trigger, or over neither.
    pub pressed: bool,
    pub over_panel: bool,
    pub over_trigger: bool,
    /// The Escape key went down.
    pub escape: bool,
}

impl PopupInput {
    /// Does this close a popover?
    pub open spec fn closes(self) -> bool {
        ||| self.close
        ||| self.pressed && !self.over_panel && !self.over_trigger
        ||| self.escape
    }
}

/// Is a popover open after a frame? One that is closed stays closed; an open one
/// closes on Escape, on a press anywhere outside it, or when its contents say so.
pub fn popup(open: bool, input: PopupInput) -> (r: bool)
    ensures
        r == (open && !input.closes()),
{
    open && !(input.close || (input.pressed && !input.over_panel && !input.over_trigger)
        || input.escape)
}

/// The trigger of a popover: how it is filled, and whether the popover is open
/// after it.
pub fn trigger(open: bool, clicked: bool) -> (r: (Fill, bool))
    ensures
        r.0 == (if open {
            Fill::Lit
        } else {
            Fill::Quiet
        }),
        r.1 == (open != clicked),
{
    let fill: Fill = if open {
        Fill::Lit
    } else {
        Fill::Quiet
    };
    (fill, if clicked {
        !open
    } else {
        open
    })
}

/// What lies under a row.
#[derive(Clone, Copy, Debug, PartialEq, Eq, Structural)]
pub enum Plate {
    Bare,
    /// A warning tint: a row that throws something away is pointed at.
    Danger,
    /// The accent tint of the selected row.
    Selected,
    Hovered,
}

/// How a row is drawn.
#[derive(Clone, Copy, Debug, PartialEq, Eq, Structural)]
pub struct ItemLook {
    pub ink: Color,
    pub plate: Plate,
    /// It carries the tick of the selected row.
    pub tick: bool,
}

impl ItemLook {
    pub open spec fn of(selected: bool, danger: bool, hovered: bool) -> ItemLook {
        ItemLook {
            ink: if danger {
                if hovered {
                    Color::of(0xff9a9a)
                } else {
                    (Color { r: 150, g: 150, b: 150, a: 150 })
                }
            } else if selected {
                Color::of(MOCHI)
            } else if hovered {
                (Color { r: 240, g: 240, b: 240, a: 240 })
            } else {
                (Color { r: 180, g: 180, b: 180, a: 180 })
            },
            plate: if !hovered && !selected {
                Plate::Bare
            } else if danger {
                Plate::Danger
            } else if selected {
                Plate::Selected
            } else {
                Plate::Hovered
            },
            tick: selected,
        }
    }
}

/// One selectable row.
pub fn item(selected: bool, danger: bool, hovered: bool) -> (r: ItemLook)
    ensures
        r == ItemLook::of(selected, danger, hovered),
{
    let ink: Color = if danger {
        if hovered {
            Color::opaque(0xff9a9a)
        } else {
            white(150)
        }
    } else if selected {
        Color::opaque(MOCHI)
    } else if hovered {
        white(240)
    } else {
        white(180)
    };
    let plate: Plate = if hovered || selected {
        if danger {
            Plate::Danger
        } else if selected {
            Plate::Selected
        } else {
            Plate::Hovered
        }
    } else {
        Plate::Bare
    };
    ItemLook { ink, plate, tick: selected }
}

/// What a picker shows as its value: the option that is selected, or a dash when
/// there is none.
pub fn current<'a>(options: &Vec<&'a str>, selected: usize) -> (r: &'a str)
    ensures
        r@ == (if selected < options@.len() {
            options@[selected as int]@
        } else {
            "—"@
        }),
{
    if selected < options.len() {
        options[selected]
    } else {
        "—"
    }
}

/// A picker after a frame.
#[derive(Clone, Copy, Debug, PartialEq, Eq, Structural)]
pub struct Picked {
    /// The option the user chose, if they chose one.
    pub choice: Option<usize>,
    /// Its panel is open.
    pub open: bool,
}

/// The compact picker that stands for a row of buttons: a click on its trigger
/// opens or closes it, and a click on a row chooses that row and closes it.
/// `clicked` is the row that was clicked; `input` what else the panel met with.
pub fn dropdown(open: bool, pressed: bool, clicked: Option<usize>, input: PopupInput) -> (r: Picked)
    ensures
        r.choice == (if open != pressed {
            clicked
        } else {
            None
        }),
        r.open == (open != pressed && clicked is None && !input.closes()),
{
    let now: bool = trigger(open, pressed).1;
    if !now {
        return Picked { choice: None, open: false };
    }
    let input: PopupInput = PopupInput { close: input.close || clicked.is_some(), ..input };
    Picked { choice: clicked, open: popup(now, input) }
}

/// A string with a thin space between every two of its characters.
pub open spec fn spread(s: Seq<char>) -> Seq<char> {
    if s.len() == 0 {
        Seq::empty()
    } else {
        Seq::new(
            (2 * s.len() - 1) as nat,
            |i: int|
                if i % 2 == 0 {
                    s[i / 2]
                } else {
                    '\u{2009}'
                },
        )
    }
}

/// The upper case of a string, as `str::to_uppercase` gives it.
pub uninterp spec fn uppercase(s: Seq<char>) -> Seq<char>;

/// Calls `str::to_uppercase`, whose result depends on the string alone and goes
/// by the name [`uppercase`] here.
#[verifier::external_body]
fn upper(s: &str) -> (r: String)
    ensures
        r@ == uppercase(s@),
{
    s.to_uppercase()
}

/// A string with a thin space between every two of its characters.
pub fn spread_out(s: &str) -> (r: String)
    ensures
        r@ == spread(s@),
{
    let mut out: String = String::new();
    let n: usize = s.unicode_len();
    let mut i: usize = 0;
    assert(out@ =~= spread(s@.take(0)));
    while i < n
        invariant
            n == s@.len(),
            i <= n,
            out@ == spread(s@.take(i as int)),
        decreases n - i,
    {
        if i > 0 {
            out.push('\u{2009}');
        }
        out.push(s.get_char(i));
        proof {
            let before = s@.take(i as int);
            let after = s@.take(i + 1);
            assert(after =~= before.push(s@[i as int]));
            assert(out@ =~= spread(after)) by {
                assert forall|k: int| 0 <= k < out@.len() implies out@[k] == spread(after)[k] by {
                    if k % 2 == 0 && k / 2 < i {
                        assert(after[k / 2] == before[k / 2]);
                    }
                }
            }
        }
        i = i + 1;
    }
    assert(s@.take(n as int) =~= s@);
    out
}

/// Letter-spacing, faked with thin spaces: the captions are all uppercase and
/// tracked out.
pub fn spaced(text: &str) -> (r: String)
    ensures
        r@ == spread(uppercase(text@)),
{
    let up: String = upper(text);
    spread_out(up.as_str())
}

/// Spacing a caption out loses nothing: two captions that look the same are the
/// same, and the spaces account for the difference in length.
pub proof fn spacing_loses_nothing(a: Seq<char>, b: Seq<char>)
    ensures
        spread(a) == spread(b) ==> a == b,
        a.len() > 0 ==> spread(a).len() == 2 * a.len() - 1,
        forall|k: int| 0 <= k < a.len() ==> #[trigger] spread(a)[2 * k] == a[k],
{
    if spread(a) == spread(b) {
        assert(spread(a).len() == spread(b).len());
        assert(a.len() == b.len());
        assert forall|k: int| 0 <= k < a.len() implies a[k] == b[k] by {
            assert(spread(a)[2 * k] == a[k]);
            assert(spread(b)[2 * k] == b[k]);
        }
        assert(a =~= b);
    }
}

/// A row carries the tick exactly when it is selected. It lies bare until it is
/// pointed at or selected; a row that throws something away then shows its warning,
/// and any other the accent when it is selected. No two states of an ordinary row
/// that is not both selected and pointed at look alike.
pub proof fn a_row_shows_its_state(selected: bool, danger: bool, hovered: bool)
    ensures
        ({
            let look = ItemLook::of(selected, danger, hovered);
            &&& look.tick <==> selected
            &&& look.plate is Bare <==> !selected && !hovered
            &&& look.plate is Danger <==> danger && (selected || hovered)
            &&& look.plate is Selected <==> !danger && selected
            &&& look.plate is Hovered <==> !danger && !selected && hovered
        }),
{
}

/// A popover closes on Escape, when its contents ask for it, and on a press outside
/// both the panel and its trigger; on nothing else.
pub proof fn a_popover_closes_on_these(input: PopupInput)
    ensures
        input.escape ==> input.closes(),
        input.close ==> input.closes(),
        input.pressed && !input.over_panel && !input.over_trigger ==> input.closes(),
        !input.escape && !input.close && (!input.pressed || input.over_panel || input.over_trigger)
            ==> !input.closes(),
{
}

/// Between every two characters of a spaced caption stands one thin space.
pub proof fn the_spaces_are_thin(s: Seq<char>, k: int)
    requires
        0 <= k < s.len() - 1,
    ensures
        spread(s)[2 * k + 1] == '\u{2009}',
        spread(s)[2 * k] == s[k],
{
}

} // verus!
