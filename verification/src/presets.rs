//! The preset store: what a preset is filed under, and what is made of what is
//! found on disk.
//!
//! Presets are plain files in a folder the user can open: saving one *is*
//! exporting it, and importing is dropping a file in. The `.equz.json` files of
//! earlier builds still load: anything in the folder that does not open with the
//! magic of a preset file is tried as JSON. Saving always writes `.pst`.

use vstd::prelude::*;

use crate::preset_file::{decode, encode, Preset, PresetFile, PRESET_VERSION};
use crate::snapshot::{Scene, Snapshot};
use crate::text::{same_text, trim};

verus! {

/// Longest stem a filename is allowed to carry.
///
/// Windows still enforces a 260-character path unless long paths have been
/// switched on, and the folder this sits in is already sixty or so characters
/// deep. A preset with a paragraph for a name should come back truncated rather
/// than fail to save.
pub const MAX_STEM: usize = 64;

/// Device names Windows reserves, which cannot be a filename even with an
/// extension on the end.
pub const RESERVED: [&'static str; 22] = [
    "CON",
    "PRN",
    "AUX",
    "NUL",
    "COM1",
    "COM2",
    "COM3",
    "COM4",
    "COM5",
    "COM6",
    "COM7",
    "COM8",
    "COM9",
    "LPT1",
    "LPT2",
    "LPT3",
    "LPT4",
    "LPT5",
    "LPT6",
    "LPT7",
    "LPT8",
    "LPT9",
];

/// A letter or a digit of ASCII.
pub open spec fn alphanumeric(c: char) -> bool {
    ('a' <= c && c <= 'z') || ('A' <= c && c <= 'Z') || ('0' <= c && c <= '9')
}

/// The characters a stem may hold.
pub open spec fn stem_allows(c: char) -> bool {
    alphanumeric(c) || c == '-' || c == '_' || c == ' '
}

/// What becomes of one character of a name.
pub open spec fn stem_char(c: char) -> char {
    if stem_allows(c) {
        c
    } else {
        '_'
    }
}

/// A letter of ASCII in upper case, and everything else as it is.
pub open spec fn upper(c: char) -> char {
    if 'a' <= c && c <= 'z' {
        ((c as u32 - 32) as u32) as char
    } else {
        c
    }
}

/// A name the system keeps for a device, in whatever case.
pub open spec fn is_reserved(s: Seq<char>) -> bool {
    exists|i: int|
        0 <= i < 22 && (#[trigger] RESERVED@[i])@ == s.map_values(|c: char| upper(c))
}

/// How many leading spaces there are.
pub open spec fn leading_blanks(s: Seq<char>) -> nat
    decreases s.len(),
{
    if s.len() > 0 && s[0] == ' ' {
        1 + leading_blanks(s.drop_first())
    } else {
        0
    }
}

/// How many trailing spaces there are.
pub open spec fn trailing_blanks(s: Seq<char>) -> nat
    decreases s.len(),
{
    if s.len() > 0 && s.last() == ' ' {
        1 + trailing_blanks(s.drop_last())
    } else {
        0
    }
}

/// A string without the spaces at its two ends.
pub open spec fn without_blank_ends(s: Seq<char>) -> Seq<char> {
    let start = s.skip(leading_blanks(s) as int);
    start.take(start.len() - trailing_blanks(start))
}

/// A name with every character that some platform refuses replaced, cut to
/// length, and without spaces at its ends.
pub open spec fn plain_stem(name: Seq<char>) -> Seq<char> {
    let mapped = name.map_values(|c: char| stem_char(c));
    without_blank_ends(
        if mapped.len() <= MAX_STEM {
            mapped
        } else {
            mapped.take(MAX_STEM as int)
        },
    )
}

/// The stem of the filename a preset is kept under.
pub open spec fn stem_of(name: Seq<char>) -> Seq<char> {
    let plain = plain_stem(name);
    let stem = if plain.len() == 0 {
        "preset"@
    } else {
        plain
    };
    if is_reserved(stem) {
        seq!['_'] + stem
    } else {
        stem
    }
}

fn is_stem_char(c: char) -> (r: bool)
    ensures
        r == stem_allows(c),
{
    ('a' <= c && c <= 'z') || ('A' <= c && c <= 'Z') || ('0' <= c && c <= '9') || c == '-' || c
        == '_' || c == ' '
}

proof fn lemma_blanks_are_lengths(s: Seq<char>)
    ensures
        leading_blanks(s) <= s.len(),
        trailing_blanks(s) <= s.len(),
    decreases s.len(),
{
    if s.len() > 0 {
        lemma_blanks_are_lengths(s.drop_first());
        lemma_blanks_are_lengths(s.drop_last());
    }
}

fn cut_blank_ends(s: &str) -> (r: &str)
    ensures
        r@ == without_blank_ends(s@),
{
    let n: usize = s.unicode_len();
    let mut i: usize = 0;
    proof {
        lemma_blanks_are_lengths(s@);
        assert(s@.skip(0) =~= s@);
    }
    while i < n && s.get_char(i) == ' '
        invariant
            n == s@.len(),
            i <= n,
            leading_blanks(s@) == i + leading_blanks(s@.skip(i as int)),
        decreases n - i,
    {
        assert(s@.skip(i as int).drop_first() =~= s@.skip(i + 1));
        i = i + 1;
    }
    let ghost start = s@.skip(i as int);
    proof {
        lemma_blanks_are_lengths(start);
        assert(start.take(start.len() as int) =~= start);
    }
    let mut j: usize = n;
    while j > i && s.get_char(j - 1) == ' '
        invariant
            n == s@.len(),
            i <= j <= n,
            start == s@.skip(i as int),
            trailing_blanks(start) == (n - j) + trailing_blanks(start.take(j - i)),
        decreases j - i,
    {
        assert(start.take(j - i).drop_last() =~= start.take(j - i - 1));
        j = j - 1;
    }
    assert(start.take(j - i) =~= s@.subrange(i as int, j as int));
    s.substring_char(i, j)
}

fn reserved(s: &str) -> (r: bool)
    ensures
        r == is_reserved(s@),
{
    let n: usize = s.unicode_len();
    let mut up: String = String::new();
    let mut i: usize = 0;
    while i < n
        invariant
            i <= n == s@.len(),
            up@ == s@.take(i as int).map_values(|c: char| upper(c)),
        decreases n - i,
    {
        let c: char = s.get_char(i);
        up.push(
            if 'a' <= c && c <= 'z' {
                (c as u8 - 32) as char
            } else {
                c
            },
        );
        i = i + 1;
        assert(up@ =~= s@.take(i as int).map_values(|c: char| upper(c)));
    }
    assert(s@.take(n as int) =~= s@);
    let mut k: usize = 0;
    while k < 22
        invariant
            k <= 22,
            up@ == s@.map_values(|c: char| upper(c)),
            forall|j: int| 0 <= j < k ==> (#[trigger] RESERVED@[j])@ != up@,
        decreases 22 - k,
    {
        if same_text(RESERVED[k], up.as_str()) {
            assert(RESERVED@[k as int]@ == up@);
            return true;
        }
        k = k + 1;
    }
    false
}

/// The stem of the filename a preset is kept under: something every platform
/// will accept, whatever the preset is called.
///
/// Deliberately the same on every platform rather than conditional: a preset
/// folder should be copyable from a Mac to a PC and still work, and a name that
/// is legal here but not there is exactly what would break that.
pub fn file_stem(name: &str) -> (r: String)
    ensures
        r@ == stem_of(name@),
{
    let len: usize = name.unicode_len();
    let n: usize = if len <= MAX_STEM {
        len
    } else {
        MAX_STEM
    };
    let ghost mapped = name@.map_values(|c: char| stem_char(c));
    let mut cut: String = String::new();
    let mut i: usize = 0;
    while i < n
        invariant
            i <= n <= name@.len(),
            mapped == name@.map_values(|c: char| stem_char(c)),
            cut@ == mapped.take(i as int),
        decreases n - i,
    {
        let c: char = name.get_char(i);
        cut.push(
            if is_stem_char(c) {
                c
            } else {
                '_'
            },
        );
        i = i + 1;
        assert(cut@ =~= mapped.take(i as int));
    }
    assert(mapped.take(mapped.len() as int) =~= mapped);
    let plain: &str = cut_blank_ends(cut.as_str());
    let stem: &str = if plain.is_empty() {
        "preset"
    } else {
        plain
    };
    if reserved(stem) {
        let mut r: String = String::new();
        r.push('_');
        r.append(stem);
        assert(r@ =~= seq!['_'] + stem@);
        r
    } else {
        stem.to_owned()
    }
}

/// The filename a preset is saved under.
pub fn file_name(name: &str) -> (r: String)
    ensures
        r@ == stem_of(name@) + ".pst"@,
{
    let mut r: String = file_stem(name);
    r.append(".pst");
    r
}

/// The filenames a preset may be filed under: the `.pst` it would be saved as
/// today, then the `.equz.json` an earlier build would have written.
pub fn paths_for(name: &str) -> (r: [String; 2])
    ensures
        r[0]@ == stem_of(name@) + ".pst"@,
        r[1]@ == stem_of(name@) + ".equz.json"@,
{
    let today: String = file_name(name);
    let mut legacy: String = file_stem(name);
    legacy.append(".equz.json");
    [today, legacy]
}

proof fn lemma_reserved_names()
    ensures
        forall|i: int|
            0 <= i < 22 ==> {
                let r = (#[trigger] RESERVED@[i])@;
                3 <= r.len() <= 4 && r[0] != '_'
            },
        "preset"@.len() == 6,
        forall|i: int| 0 <= i < 6 ==> alphanumeric(#[trigger] "preset"@[i]),
{
    reveal_strlit("CON");
    reveal_strlit("PRN");
    reveal_strlit("AUX");
    reveal_strlit("NUL");
    reveal_strlit("COM1");
    reveal_strlit("COM2");
    reveal_strlit("COM3");
    reveal_strlit("COM4");
    reveal_strlit("COM5");
    reveal_strlit("COM6");
    reveal_strlit("COM7");
    reveal_strlit("COM8");
    reveal_strlit("COM9");
    reveal_strlit("LPT1");
    reveal_strlit("LPT2");
    reveal_strlit("LPT3");
    reveal_strlit("LPT4");
    reveal_strlit("LPT5");
    reveal_strlit("LPT6");
    reveal_strlit("LPT7");
    reveal_strlit("LPT8");
    reveal_strlit("LPT9");
    reveal_strlit("preset");
    assert(RESERVED@[0]@.len() == 3 && RESERVED@[0]@[0] == 'C');
    assert(RESERVED@[1]@.len() == 3 && RESERVED@[1]@[0] == 'P');
    assert(RESERVED@[2]@.len() == 3 && RESERVED@[2]@[0] == 'A');
    assert(RESERVED@[3]@.len() == 3 && RESERVED@[3]@[0] == 'N');
    assert(RESERVED@[4]@.len() == 4 && RESERVED@[4]@[0] == 'C');
    assert(RESERVED@[5]@.len() == 4 && RESERVED@[5]@[0] == 'C');
    assert(RESERVED@[6]@.len() == 4 && RESERVED@[6]@[0] == 'C');
    assert(RESERVED@[7]@.len() == 4 && RESERVED@[7]@[0] == 'C');
    assert(RESERVED@[8]@.len() == 4 && RESERVED@[8]@[0] == 'C');
    assert(RESERVED@[9]@.len() == 4 && RESERVED@[9]@[0] == 'C');
    assert(RESERVED@[10]@.len() == 4 && RESERVED@[10]@[0] == 'C');
    assert(RESERVED@[11]@.len() == 4 && RESERVED@[11]@[0] == 'C');
    assert(RESERVED@[12]@.len() == 4 && RESERVED@[12]@[0] == 'C');
    assert(RESERVED@[13]@.len() == 4 && RESERVED@[13]@[0] == 'L');
    assert(RESERVED@[14]@.len() == 4 && RESERVED@[14]@[0] == 'L');
    assert(RESERVED@[15]@.len() == 4 && RESERVED@[15]@[0] == 'L');
    assert(RESERVED@[16]@.len() == 4 && RESERVED@[16]@[0] == 'L');
    assert(RESERVED@[17]@.len() == 4 && RESERVED@[17]@[0] == 'L');
    assert(RESERVED@[18]@.len() == 4 && RESERVED@[18]@[0] == 'L');
    assert(RESERVED@[19]@.len() == 4 && RESERVED@[19]@[0] == 'L');
    assert(RESERVED@[20]@.len() == 4 && RESERVED@[20]@[0] == 'L');
    assert(RESERVED@[21]@.len() == 4 && RESERVED@[21]@[0] == 'L');
    assert forall|i: int| 0 <= i < 22 implies {
        let r = (#[trigger] RESERVED@[i])@;
        3 <= r.len() <= 4 && r[0] != '_'
    } by {
        if i < 11 {
            assert(i == 0 || i == 1 || i == 2 || i == 3 || i == 4 || i == 5 || i == 6 || i == 7 || i
                == 8 || i == 9 || i == 10);
        } else {
            assert(i == 11 || i == 12 || i == 13 || i == 14 || i == 15 || i == 16 || i == 17 || i
                == 18 || i == 19 || i == 20 || i == 21);
        }
    }
}

proof fn lemma_without_blank_ends(s: Seq<char>)
    ensures
        without_blank_ends(s).len() <= s.len(),
        forall|i: int|
            0 <= i < without_blank_ends(s).len() ==> s.contains(
                #[trigger] without_blank_ends(s)[i],
            ),
        without_blank_ends(s).len() > 0 ==> without_blank_ends(s)[0] != ' '
            && without_blank_ends(s).last() != ' ',
{
    lemma_blanks_are_lengths(s);
    let start = s.skip(leading_blanks(s) as int);
    lemma_blanks_are_lengths(start);
    lemma_no_leading_blank_is_left(s);
    lemma_no_trailing_blank_is_left(start);
    let r = without_blank_ends(s);
    assert forall|i: int| 0 <= i < r.len() implies s.contains(#[trigger] r[i]) by {
        assert(s[i + leading_blanks(s)] == r[i]);
    }
}

proof fn lemma_no_leading_blank_is_left(s: Seq<char>)
    ensures
        leading_blanks(s) <= s.len(),
        leading_blanks(s) < s.len() ==> s[leading_blanks(s) as int] != ' ',
    decreases s.len(),
{
    if s.len() > 0 && s[0] == ' ' {
        lemma_no_leading_blank_is_left(s.drop_first());
    }
}

proof fn lemma_no_trailing_blank_is_left(s: Seq<char>)
    ensures
        trailing_blanks(s) <= s.len(),
        trailing_blanks(s) < s.len() ==> s[s.len() - trailing_blanks(s) - 1] != ' ',
    decreases s.len(),
{
    if s.len() > 0 && s.last() == ' ' {
        lemma_no_trailing_blank_is_left(s.drop_last());
    }
}

/// A stem that every platform accepts: not empty, not too long, made of letters,
/// digits, `-`, `_` and inner spaces, and not the name of a device.
pub open spec fn legal_stem(s: Seq<char>) -> bool {
    &&& 0 < s.len() <= MAX_STEM
    &&& forall|i: int| 0 <= i < s.len() ==> stem_allows(#[trigger] s[i])
    &&& s[0] != ' '
    &&& s.last() != ' '
    &&& !is_reserved(s)
}

/// Whatever a preset is called, its filename is legal on every platform.
pub proof fn every_stem_is_legal(name: Seq<char>)
    ensures
        legal_stem(stem_of(name)),
{
    lemma_reserved_names();
    let mapped = name.map_values(|c: char| stem_char(c));
    let cut = if mapped.len() <= MAX_STEM {
        mapped
    } else {
        mapped.take(MAX_STEM as int)
    };
    assert forall|i: int| 0 <= i < cut.len() implies stem_allows(#[trigger] cut[i]) by {
        assert(cut[i] == stem_char(name[i]));
    }
    lemma_without_blank_ends(cut);
    let plain = plain_stem(name);
    assert forall|i: int| 0 <= i < plain.len() implies stem_allows(#[trigger] plain[i]) by {
        assert(cut.contains(plain[i]));
    }
    let stem = if plain.len() == 0 {
        "preset"@
    } else {
        plain
    };
    assert forall|i: int| 0 <= i < stem.len() implies stem_allows(#[trigger] stem[i]) by {}
    if plain.len() == 0 {
        assert(alphanumeric(stem[0]) && alphanumeric(stem[5]));
        assert(!is_reserved(stem)) by {
            assert(stem.map_values(|c: char| upper(c)).len() == 6);
        }
    }
    if is_reserved(stem) {
        let i = choose|i: int|
            0 <= i < 22 && (#[trigger] RESERVED@[i])@ == stem.map_values(|c: char| upper(c));
        assert(RESERVED@[i]@.len() == stem.map_values(|c: char| upper(c)).len() == stem.len());
        let prefixed = seq!['_'] + stem;
        assert(prefixed.map_values(|c: char| upper(c))[0] == '_');
        assert(!is_reserved(prefixed));
        assert forall|i: int| 0 <= i < prefixed.len() implies stem_allows(#[trigger] prefixed[i])
            by {
            if i > 0 {
                assert(prefixed[i] == stem[i - 1]);
            }
        }
        assert(prefixed.last() == stem.last());
    }
}

/// A legal stem is left alone, so a preset is found again under the name of its
/// own file.
pub proof fn a_legal_stem_is_its_own(stem: Seq<char>)
    requires
        legal_stem(stem),
    ensures
        stem_of(stem) == stem,
{
    let mapped = stem.map_values(|c: char| stem_char(c));
    assert(mapped =~= stem) by {
        assert forall|i: int| 0 <= i < stem.len() implies mapped[i] == stem[i] by {
            assert(stem_allows(stem[i]));
        }
    }
    assert(leading_blanks(stem) == 0);
    assert(stem.skip(0) =~= stem);
    assert(trailing_blanks(stem) == 0);
    assert(stem.take(stem.len() as int) =~= stem);
}

/// A letter or a digit of ASCII, a hyphen, an underscore or a space stays in a
/// filename as it is, and every other character of a name becomes an underscore.
pub proof fn a_filename_keeps_what_it_can(name: Seq<char>, i: int)
    requires
        0 <= i < name.len() <= 64,
        name[0] != ' ',
        name.last() != ' ',
        !is_reserved(name.map_values(|c: char| stem_char(c))),
    ensures
        stem_of(name).len() == name.len(),
        stem_of(name)[i] == (if 'a' <= name[i] <= 'z' || 'A' <= name[i] <= 'Z' || '0' <= name[i]
            <= '9' || name[i] == '-' || name[i] == '_' || name[i] == ' ' {
            name[i]
        } else {
            '_'
        }),
{
    let mapped = name.map_values(|c: char| stem_char(c));
    assert(mapped[0] == stem_char(name[0]));
    assert(mapped.last() == stem_char(name.last()));
    assert(leading_blanks(mapped) == 0);
    assert(mapped.skip(0) =~= mapped);
    assert(trailing_blanks(mapped) == 0);
    assert(mapped.take(mapped.len() as int) =~= mapped);
}

/// A filename goes by the first sixty-four characters of a name; a name of spaces
/// alone, or of nothing, is filed as `preset`.
pub proof fn a_filename_is_cut_to_length(name: Seq<char>)
    ensures
        name.len() > 64 ==> stem_of(name) == stem_of(name.take(64)),
        (forall|i: int| 0 <= i < name.len() ==> #[trigger] name[i] == ' ') ==> stem_of(name)
            == "preset"@,
{
    let mapped = name.map_values(|c: char| stem_char(c));
    if name.len() > 64 {
        assert(name.take(64).map_values(|c: char| stem_char(c)) =~= mapped.take(64));
    }
    if forall|i: int| 0 <= i < name.len() ==> #[trigger] name[i] == ' ' {
        let cut = if mapped.len() <= MAX_STEM {
            mapped
        } else {
            mapped.take(MAX_STEM as int)
        };
        assert forall|i: int| 0 <= i < cut.len() implies #[trigger] cut[i] == ' ' by {
            assert(cut[i] == stem_char(name[i]));
        }
        lemma_blanks_alone(cut);
        lemma_reserved_names();
        assert("preset"@.map_values(|c: char| upper(c)).len() == 6);
    }
}

proof fn lemma_blanks_alone(s: Seq<char>)
    requires
        forall|i: int| 0 <= i < s.len() ==> #[trigger] s[i] == ' ',
    ensures
        leading_blanks(s) == s.len(),
        without_blank_ends(s).len() == 0,
    decreases s.len(),
{
    if s.len() > 0 {
        let rest = s.drop_first();
        assert forall|i: int| 0 <= i < rest.len() implies #[trigger] rest[i] == ' ' by {
            assert(rest[i] == s[i + 1]);
        }
        lemma_blanks_alone(rest);
    }
}

/// The name of a device is filed with an underscore before it, whatever the case
/// of its letters.
pub proof fn a_device_name_is_set_apart(name: Seq<char>, i: int)
    requires
        0 <= i < 22,
        name.len() == RESERVED@[i]@.len(),
        forall|k: int|
            0 <= k < name.len() ==> {
                let c = #[trigger] name[k];
                let r = RESERVED@[i]@[k];
                &&& 'A' <= r <= 'Z' || '1' <= r <= '9'
                &&& c == r || 'a' <= c <= 'z' && c as u32 == r as u32 + 32
            },
    ensures
        stem_of(name) == seq!['_'] + name,
{
    lemma_reserved_names();
    assert(3 <= RESERVED@[i]@.len() <= 4);
    let mapped = name.map_values(|c: char| stem_char(c));
    assert(mapped =~= name) by {
        assert forall|k: int| 0 <= k < name.len() implies mapped[k] == name[k] by {
            let c = name[k];
            assert('A' <= RESERVED@[i]@[k] <= 'Z' || '1' <= RESERVED@[i]@[k] <= '9');
            assert(stem_allows(c));
        }
    }
    assert(name[0] != ' ');
    assert(name[name.len() - 1] != ' ');
    assert(leading_blanks(name) == 0);
    assert(name.skip(0) =~= name);
    assert(trailing_blanks(name) == 0);
    assert(name.take(name.len() as int) =~= name);
    assert(name.map_values(|c: char| upper(c)) =~= RESERVED@[i]@) by {
        assert forall|k: int| 0 <= k < name.len() implies upper(name[k]) == RESERVED@[i]@[k] by {
            let c = name[k];
            assert(upper(c) == RESERVED@[i]@[k]);
        }
    }
}

/// A filename never leaves the preset folder: it holds no separator, no drive
/// letter, and no dot but the one before the extension.
pub proof fn a_filename_stays_in_the_folder(name: Seq<char>)
    ensures
        ({
            let file = stem_of(name) + ".pst"@;
            &&& forall|i: int|
                0 <= i < file.len() ==> (#[trigger] file[i]) != '/' && file[i] != '\\' && file[i]
                    != ':'
            &&& forall|i: int|
                0 <= i < file.len() && (#[trigger] file[i]) == '.' ==> i == file.len() - 4
            &&& file.len() <= MAX_STEM + 4
        }),
{
    every_stem_is_legal(name);
    reveal_strlit(".pst");
    let stem = stem_of(name);
    let ext = ".pst"@;
    let file = stem + ext;
    assert(ext.len() == 4 && ext[0] == '.' && ext[1] == 'p' && ext[2] == 's' && ext[3] == 't');
    assert forall|i: int| 0 <= i < file.len() implies (#[trigger] file[i]) != '/' && file[i]
        != '\\' && file[i] != ':' && (file[i] == '.' ==> i == file.len() - 4) by {
        if i < stem.len() {
            assert(stem_allows(stem[i]));
        } else {
            assert(file[i] == ext[i - stem.len()]);
        }
    }
}

/// Does one string end in another?
pub open spec fn ends_in(s: Seq<char>, suffix: Seq<char>) -> bool {
    suffix.len() <= s.len() && s.skip(s.len() - suffix.len()) == suffix
}

/// A string with a suffix taken off its end as often as it is there.
pub open spec fn without_suffix(s: Seq<char>, suffix: Seq<char>) -> Seq<char>
    decreases s.len(),
{
    if suffix.len() > 0 && ends_in(s, suffix) {
        without_suffix(s.take(s.len() - suffix.len()), suffix)
    } else {
        s
    }
}

fn strip_suffix<'a>(s: &'a str, suffix: &str) -> (r: &'a str)
    ensures
        r@ == without_suffix(s@, suffix@),
{
    let k: usize = suffix.unicode_len();
    if k == 0 {
        return s;
    }
    let mut r: &'a str = s;
    let mut n: usize = s.unicode_len();
    while n >= k
        invariant_except_break
            k == suffix@.len() > 0,
            n == r@.len(),
            without_suffix(s@, suffix@) == without_suffix(r@, suffix@),
        ensures
            r@ == without_suffix(s@, suffix@),
        decreases n,
    {
        let tail: &str = r.substring_char(n - k, n);
        assert(tail@ =~= r@.skip(n - k));
        if !same_text(tail, suffix) {
            break ;
        }
        let ghost before = r@;
        r = r.substring_char(0, n - k);
        assert(r@ =~= before.take(n - k));
        n = n - k;
    }
    r
}

/// The name a file gives a preset that has none of its own.
pub open spec fn name_from_file(file: Option<Seq<char>>) -> Seq<char> {
    let whole = match file {
        Some(file) => file,
        None => "preset"@,
    };
    without_suffix(without_suffix(without_suffix(whole, ".pst"@), ".equz.json"@), ".json"@)
}

/// A preset that has a name of its own keeps it; any other is named after its
/// file.
pub open spec fn named(p: Preset, file: Option<Seq<char>>) -> Preset {
    if crate::text::trimmed(p.name).len() == 0 {
        Preset { name: name_from_file(file), ..p }
    } else {
        p
    }
}

/// Does a file open with the magic of a preset file? What does not is tried as
/// the legacy JSON.
pub fn has_magic(bytes: &[u8]) -> (r: bool)
    ensures
        r == (bytes@.len() >= 4 && bytes@.take(4) == crate::preset_file::magic()),
{
    let r: bool = bytes.len() >= 4 && bytes[0] == 0x46 && bytes[1] == 0x42 && bytes[2] == 0x50
        && bytes[3] == 0x46;
    proof {
        let magic = crate::preset_file::magic();
        if r {
            assert(bytes@.take(4) =~= magic);
        } else if bytes@.len() >= 4 {
            assert(bytes@.take(4)[0] != magic[0] || bytes@.take(4)[1] != magic[1] || bytes@.take(
                4,
            )[2] != magic[2] || bytes@.take(4)[3] != magic[3]);
        }
    }
    r
}

/// A preset under the name it has, or under that of its file where its own is
/// blank.
pub fn name_after(preset: PresetFile, blank: bool, file: Option<&str>) -> (r: PresetFile)
    ensures
        r@ == (if blank {
            Preset {
                name: name_from_file(
                    match file {
                        Some(file) => Some(file@),
                        None => None,
                    },
                ),
                ..preset@
            }
        } else {
            preset@
        }),
{
    let mut preset: PresetFile = preset;
    if blank {
        let whole: &str = match file {
            Some(file) => file,
            None => "preset",
        };
        let name: &str = strip_suffix(
            strip_suffix(strip_suffix(whole, ".pst"), ".equz.json"),
            ".json",
        );
        preset.name = name.to_owned();
    }
    preset
}

/// What is made of a file: a preset file by its magic, and otherwise whatever
/// the legacy reader made of it. Nothing comes of a file that neither can read.
pub fn read(bytes: &[u8], legacy: Option<PresetFile>, file: Option<&str>) -> (r: Option<
    PresetFile,
>)
    ensures
        match r {
            Some(preset) => {
                let own = bytes@.len() >= 4 && bytes@.take(4) == crate::preset_file::magic();
                let shown = match file {
                    Some(file) => Some(file@),
                    None => None,
                };
                if own {
                    &&& crate::preset_file::readable(bytes@)
                    &&& preset@ == named(crate::preset_file::content(bytes@), shown)
                } else {
                    legacy matches Some(found) && preset@ == named(found@, shown)
                }
            },
            None => {
                let own = bytes@.len() >= 4 && bytes@.take(4) == crate::preset_file::magic();
                if own {
                    !crate::preset_file::readable(bytes@)
                } else {
                    legacy is None
                }
            },
        },
{
    let found: Option<PresetFile> = if has_magic(bytes) {
        decode(bytes)
    } else {
        legacy
    };
    match found {
        None => None,
        Some(preset) => {
            let blank: bool = trim(preset.name.as_str()).is_empty();
            Some(name_after(preset, blank, file))
        },
    }
}

/// Recall a preset: the first of the two files that could be read, fitted into
/// what the parameters accept.
pub fn load(today: Option<PresetFile>, legacy: Option<PresetFile>) -> (r: Option<Snapshot>)
    ensures
        match (today, legacy) {
            (Some(preset), _) => r matches Some(s) && s@ == preset@.scene.fitted(),
            (None, Some(preset)) => r matches Some(s) && s@ == preset@.scene.fitted(),
            (None, None) => r is None,
        },
{
    match today {
        Some(preset) => Some(preset.snapshot.sanitized()),
        None => match legacy {
            Some(preset) => Some(preset.snapshot.sanitized()),
            None => None,
        },
    }
}

/// What came of deleting a preset, given for each of the two files it may be
/// filed under whether removing it worked, if it was there to remove. Both are
/// removed: one left behind would bring the preset back.
pub fn delete(today: Option<bool>, legacy: Option<bool>) -> (r: bool)
    ensures
        r == (today == Some(true) || legacy == Some(true)),
{
    let first: bool = match today {
        Some(removed) => removed,
        None => false,
    };
    match legacy {
        Some(removed) => removed || first,
        None => first,
    }
}

/// A file to be written.
#[derive(Debug)]
pub struct SavedFile {
    pub name: String,
    pub bytes: Vec<u8>,
}

/// File a snapshot under a name: the file to write, or nothing for a name that
/// is blank.
pub fn save(name: &str, snapshot: &Snapshot) -> (r: Option<SavedFile>)
    ensures
        ({
            let name = crate::text::trimmed(name@);
            match r {
                Some(file) => {
                    &&& name.len() > 0
                    &&& file.name@ == stem_of(name) + ".pst"@
                    &&& file.bytes@ == crate::preset_file::encoded(
                        Preset { name, version: PRESET_VERSION, scene: snapshot@.fitted() },
                    )
                },
                None => name.len() == 0,
            }
        }),
{
    file_under(trim(name), snapshot)
}

/// File a snapshot under a name that has no white space at its ends: the file to
/// write, or nothing for want of a name.
pub fn file_under(name: &str, snapshot: &Snapshot) -> (r: Option<SavedFile>)
    ensures
        match r {
            Some(file) => {
                &&& name@.len() > 0
                &&& file.name@ == stem_of(name@) + ".pst"@
                &&& file.bytes@ == crate::preset_file::encoded(
                    Preset { name: name@, version: PRESET_VERSION, scene: snapshot@.fitted() },
                )
            },
            None => name@.len() == 0,
        },
{
    if name.is_empty() {
        return None;
    }
    let preset: PresetFile = PresetFile {
        name: name.to_owned(),
        version: PRESET_VERSION,
        snapshot: snapshot.sanitized(),
    };
    Some(SavedFile { name: file_name(name), bytes: encode(&preset) })
}

/// A preset that was saved loads as what it was saved from, fitted into what the
/// parameters accept, and under the name it was saved by.
pub proof fn a_saved_preset_loads(name: Seq<char>, scene: Scene)
    requires
        crate::text::trimmed(name).len() > 0,
        vstd::utf8::encode_utf8(crate::text::trimmed(name)).len() <= u16::MAX,
    ensures
        ({
            let written = Preset {
                name: crate::text::trimmed(name),
                version: PRESET_VERSION,
                scene: scene.fitted(),
            };
            let bytes = crate::preset_file::encoded(written);
            &&& crate::preset_file::readable(bytes)
            &&& named(crate::preset_file::content(bytes), None) == written
            &&& crate::preset_file::content(bytes).scene.fitted() == scene.fitted()
        }),
{
    scene.fitting_keeps_what_fits();
    crate::text::trimming_twice_is_trimming_once(name);
    crate::preset_file::a_preset_reads_back(
        Preset {
            name: crate::text::trimmed(name),
            version: PRESET_VERSION,
            scene: scene.fitted(),
        },
    );
}

/// The lower case of a string, as `str::to_lowercase` gives it.
pub uninterp spec fn lowercase(s: Seq<char>) -> Seq<char>;

/// Calls `str::to_lowercase`, whose result depends on the string alone and goes
/// by the name [`lowercase`] here.
#[verifier::external_body]
fn lower(s: &str) -> (r: String)
    ensures
        r@ == lowercase(s@),
{
    s.to_lowercase()
}

/// What some strings say.
pub open spec fn texts(v: Seq<String>) -> Seq<Seq<char>> {
    v.map_values(|s: String| s@)
}

/// Does one string come no later than another, byte by byte?
pub open spec fn not_after(a: Seq<u8>, b: Seq<u8>) -> bool
    decreases a.len(),
{
    if a.len() == 0 {
        true
    } else if b.len() == 0 || a[0] > b[0] {
        false
    } else {
        a[0] < b[0] || not_after(a.drop_first(), b.drop_first())
    }
}

/// Does one string sort no later than another?
pub open spec fn sorts_before(a: Seq<char>, b: Seq<char>) -> bool {
    not_after(vstd::utf8::encode_utf8(a), vstd::utf8::encode_utf8(b))
}

fn comes_no_later(a: &str, b: &str) -> (r: bool)
    ensures
        r == sorts_before(a@, b@),
{
    let x: &[u8] = a.as_bytes();
    let y: &[u8] = b.as_bytes();
    let mut i: usize = 0;
    assert(x@.skip(0) =~= x@);
    assert(y@.skip(0) =~= y@);
    while i < x.len()
        invariant
            i <= x.len(),
            i <= y.len(),
            x@ == vstd::utf8::encode_utf8(a@),
            y@ == vstd::utf8::encode_utf8(b@),
            not_after(x@, y@) == not_after(x@.skip(i as int), y@.skip(i as int)),
        decreases x.len() - i,
    {
        if i >= y.len() || x[i] > y[i] {
            return false;
        }
        if x[i] < y[i] {
            return true;
        }
        assert(x@.skip(i as int).drop_first() =~= x@.skip(i + 1));
        assert(y@.skip(i as int).drop_first() =~= y@.skip(i + 1));
        i = i + 1;
    }
    true
}

/// A list of names with their sort keys.
#[verifier::ext_equal]
pub struct Keyed {
    pub keys: Seq<Seq<char>>,
    pub names: Seq<Seq<char>>,
}

/// Where a key belongs in a sorted list: behind every key that sorts no later.
pub open spec fn place_for(keys: Seq<Seq<char>>, key: Seq<char>) -> int
    decreases keys.len(),
{
    if keys.len() == 0 || sorts_before(keys.last(), key) {
        keys.len() as int
    } else {
        place_for(keys.drop_last(), key)
    }
}

/// Names sorted by their keys; names with equal keys stay in the order they
/// came in.
pub open spec fn sorted_by(keys: Seq<Seq<char>>, names: Seq<Seq<char>>) -> Keyed
    decreases keys.len(),
{
    if keys.len() == 0 {
        Keyed { keys: Seq::empty(), names: Seq::empty() }
    } else {
        let before = sorted_by(keys.drop_last(), names.drop_last());
        let at = place_for(before.keys, keys.last());
        Keyed {
            keys: before.keys.insert(at, keys.last()),
            names: before.names.insert(at, names.last()),
        }
    }
}

/// A list without the items that repeat the one before them.
pub open spec fn without_repeats(names: Seq<Seq<char>>) -> Seq<Seq<char>>
    decreases names.len(),
{
    if names.len() == 0 {
        names
    } else {
        let before = without_repeats(names.drop_last());
        if names.len() > 1 && names[names.len() - 2] == names.last() {
            before
        } else {
            before.push(names.last())
        }
    }
}

proof fn lemma_place_for(keys: Seq<Seq<char>>, key: Seq<char>)
    ensures
        0 <= place_for(keys, key) <= keys.len(),
    decreases keys.len(),
{
    if keys.len() > 0 && !sorts_before(keys.last(), key) {
        lemma_place_for(keys.drop_last(), key);
    }
}

/// Sort names by keys that come with them, and drop the names that repeat the
/// one before them.
pub fn arrange(keys: Vec<String>, names: Vec<String>) -> (r: Vec<String>)
    requires
        keys@.len() == names@.len(),
    ensures
        texts(r@) == without_repeats(sorted_by(texts(keys@), texts(names@)).names),
{
    let mut sorted_keys: Vec<String> = Vec::new();
    let mut sorted: Vec<String> = Vec::new();
    let n: usize = keys.len();
    let mut i: usize = 0;
    assert(texts(sorted_keys@) =~= sorted_by(texts(keys@).take(0), texts(names@).take(0)).keys);
    assert(texts(sorted@) =~= sorted_by(texts(keys@).take(0), texts(names@).take(0)).names);
    while i < n
        invariant
            i <= n == keys@.len() == names@.len(),
            sorted_keys@.len() == i,
            sorted@.len() == i,
            texts(sorted_keys@) == sorted_by(
                texts(keys@).take(i as int),
                texts(names@).take(i as int),
            ).keys,
            texts(sorted@) == sorted_by(
                texts(keys@).take(i as int),
                texts(names@).take(i as int),
            ).names,
        decreases n - i,
    {
        let key: &String = &keys[i];
        let mut at: usize = i;
        let ghost all = texts(sorted_keys@);
        assert(all.take(i as int) =~= all);
        while at > 0 && !comes_no_later(sorted_keys[at - 1].as_str(), key.as_str())
            invariant
                at <= i == sorted_keys@.len(),
                all == texts(sorted_keys@),
                place_for(all, key@) == place_for(all.take(at as int), key@),
            decreases at,
        {
            assert(all.take(at as int).drop_last() =~= all.take(at - 1));
            assert(all.take(at as int).last() == sorted_keys@[at - 1]@);
            at = at - 1;
        }
        assert(at > 0 ==> all.take(at as int).last() == sorted_keys@[at - 1]@);
        assert(place_for(all, key@) == at);
        let ghost keys_before = sorted_keys@;
        let ghost names_before = sorted@;
        sorted_keys.insert(at, keys[i].clone());
        sorted.insert(at, names[i].clone());
        proof {
            let k1 = texts(keys@).take(i + 1);
            let n1 = texts(names@).take(i + 1);
            assert(k1.drop_last() =~= texts(keys@).take(i as int));
            assert(n1.drop_last() =~= texts(names@).take(i as int));
            assert(texts(sorted_keys@) =~= texts(keys_before).insert(at as int, key@));
            assert(texts(sorted@) =~= texts(names_before).insert(at as int, names@[i as int]@));
        }
        i = i + 1;
    }
    assert(texts(keys@).take(n as int) =~= texts(keys@));
    assert(texts(names@).take(n as int) =~= texts(names@));
    drop_repeats(sorted)
}

fn drop_repeats(names: Vec<String>) -> (r: Vec<String>)
    ensures
        texts(r@) == without_repeats(texts(names@)),
{
    let mut kept: Vec<String> = Vec::new();
    let mut i: usize = 0;
    let ghost all = texts(names@);
    assert(texts(kept@) =~= without_repeats(all.take(0)));
    while i < names.len()
        invariant
            i <= names@.len(),
            all == texts(names@),
            texts(kept@) == without_repeats(all.take(i as int)),
        decreases names.len() - i,
    {
        let repeats: bool = i > 0 && same_text(names[i - 1].as_str(), names[i].as_str());
        proof {
            let upto = all.take(i + 1);
            assert(upto.drop_last() =~= all.take(i as int));
            assert(upto.last() == names@[i as int]@);
            if i > 0 {
                assert(upto[upto.len() - 2] == names@[i - 1]@);
            }
        }
        if !repeats {
            let ghost before = kept@;
            kept.push(names[i].clone());
            assert(texts(kept@) =~= texts(before).push(names@[i as int]@));
        }
        i = i + 1;
    }
    assert(all.take(i as int) =~= all);
    kept
}

/// Every preset that was found, by name, sorted the way a person would sort
/// them: whatever the case of the letters, and none twice in a row.
pub fn list(names: Vec<String>) -> (r: Vec<String>)
    ensures
        texts(r@) == without_repeats(
            sorted_by(
                texts(names@).map_values(|s: Seq<char>| lowercase(s)),
                texts(names@),
            ).names,
        ),
{
    let mut keys: Vec<String> = Vec::new();
    let mut i: usize = 0;
    while i < names.len()
        invariant
            i <= names@.len(),
            keys@.len() == i,
            forall|k: int| 0 <= k < i ==> (#[trigger] keys@[k])@ == lowercase(names@[k]@),
        decreases names.len() - i,
    {
        keys.push(lower(names[i].as_str()));
        i = i + 1;
    }
    assert(texts(keys@) =~= texts(names@).map_values(|s: Seq<char>| lowercase(s)));
    arrange(keys, names)
}

proof fn lemma_not_after_is_an_order(a: Seq<u8>, b: Seq<u8>, c: Seq<u8>)
    ensures
        not_after(a, b) || not_after(b, a),
        not_after(a, b) && not_after(b, c) ==> not_after(a, c),
    decreases a.len(),
{
    if a.len() > 0 && b.len() > 0 {
        if c.len() > 0 {
            lemma_not_after_is_an_order(a.drop_first(), b.drop_first(), c.drop_first());
        } else {
            lemma_not_after_is_an_order(a.drop_first(), b.drop_first(), Seq::empty());
        }
    }
}

/// Strings are ordered by their bytes: one comes no later than another exactly
/// when it is the beginning of the other, or has the smaller byte at the first
/// place where they differ. Two strings that each come no later than the other
/// are the same.
pub proof fn names_are_ordered_byte_by_byte(a: Seq<u8>, b: Seq<u8>)
    ensures
        not_after(a, b) <==> {
            ||| a.len() <= b.len() && a == b.take(a.len() as int)
            ||| exists|i: int|
                #![trigger a[i]]
                {
                    &&& 0 <= i < a.len() && i < b.len()
                    &&& a.take(i) == b.take(i)
                    &&& a[i] < b[i]
                }
        },
        not_after(a, b) && not_after(b, a) ==> a == b,
        not_after(a, a),
    decreases a.len(),
{
    if a.len() == 0 {
        assert(a =~= b.take(0));
        if not_after(b, a) {
            assert(a =~= b);
        }
    } else if b.len() > 0 {
        let (x, y) = (a.drop_first(), b.drop_first());
        names_are_ordered_byte_by_byte(x, y);
        lemma_not_after_itself(a);
        if a[0] < b[0] {
            assert(a.take(0) =~= b.take(0));
            assert(a[0] < b[0]);
        } else if a[0] == b[0] {
            assert(a =~= seq![a[0]] + x);
            assert(b =~= seq![b[0]] + y);
            if not_after(a, b) {
                if x.len() <= y.len() && x == y.take(x.len() as int) {
                    assert(a =~= b.take(a.len() as int)) by {
                        assert forall|k: int| 0 < k < a.len() implies a[k] == b[k] by {
                            assert(x[k - 1] == y.take(x.len() as int)[k - 1]);
                        }
                    }
                } else {
                    let i = choose|i: int|
                        #![trigger x[i]]
                        {
                            &&& 0 <= i < x.len() && i < y.len()
                            &&& x.take(i) == y.take(i)
                            &&& x[i] < y[i]
                        };
                    assert(a.take(i + 1) =~= b.take(i + 1)) by {
                        assert forall|k: int| 0 < k < i + 1 implies a[k] == b[k] by {
                            assert(x.take(i)[k - 1] == y.take(i)[k - 1]);
                        }
                    }
                    assert(a[i + 1] < b[i + 1]);
                }
            }
            if a.len() <= b.len() && a == b.take(a.len() as int) {
                assert(x =~= y.take(x.len() as int)) by {
                    assert forall|k: int| 0 <= k < x.len() implies x[k] == y[k] by {
                        assert(a[k + 1] == b.take(a.len() as int)[k + 1]);
                    }
                }
            }
            if exists|i: int|
                #![trigger a[i]]
                {
                    &&& 0 <= i < a.len() && i < b.len()
                    &&& a.take(i) == b.take(i)
                    &&& a[i] < b[i]
                } {
                let i = choose|i: int|
                    #![trigger a[i]]
                    {
                        &&& 0 <= i < a.len() && i < b.len()
                        &&& a.take(i) == b.take(i)
                        &&& a[i] < b[i]
                    };
                assert(x.take(i - 1) =~= y.take(i - 1)) by {
                    assert forall|k: int| 0 <= k < i - 1 implies x[k] == y[k] by {
                        assert(a.take(i)[k + 1] == b.take(i)[k + 1]);
                    }
                }
                assert(x[i - 1] < y[i - 1]);
            }
        } else {
            if a.len() <= b.len() && a == b.take(a.len() as int) {
                assert(a[0] == b.take(a.len() as int)[0]);
            }
            assert forall|i: int| #![trigger a[i]] 0 <= i < a.len() && i < b.len() && a.take(i)
                == b.take(i) implies !(a[i] < b[i]) by {
                if i > 0 {
                    assert(a.take(i)[0] == b.take(i)[0]);
                }
            }
        }
    } else {
        lemma_not_after_itself(a);
    }
}

proof fn lemma_not_after_itself(a: Seq<u8>)
    ensures
        not_after(a, a),
    decreases a.len(),
{
    if a.len() > 0 {
        lemma_not_after_itself(a.drop_first());
    }
}

/// Two names that each sort no later than the other are one name.
pub proof fn two_names_that_tie_are_one(a: Seq<char>, b: Seq<char>)
    requires
        sorts_before(a, b),
        sorts_before(b, a),
    ensures
        a == b,
{
    names_are_ordered_byte_by_byte(vstd::utf8::encode_utf8(a), vstd::utf8::encode_utf8(b));
    vstd::utf8::encode_utf8_decode_utf8(a);
    vstd::utf8::encode_utf8_decode_utf8(b);
}

proof fn lemma_place_is_right(keys: Seq<Seq<char>>, key: Seq<char>)
    requires
        forall|i: int, j: int|
            0 <= i <= j < keys.len() ==> sorts_before(#[trigger] keys[i], #[trigger] keys[j]),
    ensures
        0 <= place_for(keys, key) <= keys.len(),
        forall|i: int|
            0 <= i < place_for(keys, key) ==> sorts_before(#[trigger] keys[i], key),
        forall|i: int|
            place_for(keys, key) <= i < keys.len() ==> sorts_before(key, #[trigger] keys[i]),
    decreases keys.len(),
{
    if keys.len() > 0 {
        if sorts_before(keys.last(), key) {
            assert forall|i: int| 0 <= i < keys.len() implies sorts_before(
                #[trigger] keys[i],
                key,
            ) by {
                assert(sorts_before(keys[i], keys[keys.len() - 1]));
                lemma_not_after_is_an_order(
                    vstd::utf8::encode_utf8(keys[i]),
                    vstd::utf8::encode_utf8(keys.last()),
                    vstd::utf8::encode_utf8(key),
                );
            }
        } else {
            let shorter = keys.drop_last();
            assert forall|i: int, j: int| 0 <= i <= j < shorter.len() implies sorts_before(
                #[trigger] shorter[i],
                #[trigger] shorter[j],
            ) by {
                assert(sorts_before(keys[i], keys[j]));
            }
            lemma_place_is_right(shorter, key);
            lemma_not_after_is_an_order(
                vstd::utf8::encode_utf8(keys.last()),
                vstd::utf8::encode_utf8(key),
                Seq::empty(),
            );
            assert forall|i: int| place_for(keys, key) <= i < keys.len() implies sorts_before(
                key,
                #[trigger] keys[i],
            ) by {
                if i < shorter.len() {
                    assert(shorter[i] == keys[i]);
                }
            }
            assert forall|i: int| 0 <= i < place_for(keys, key) implies sorts_before(
                #[trigger] keys[i],
                key,
            ) by {
                assert(shorter[i] == keys[i]);
            }
        }
    }
}

/// The sorted list is in order, and holds the names that went in, each as often
/// as it did.
pub proof fn sorting_orders_and_keeps(keys: Seq<Seq<char>>, names: Seq<Seq<char>>)
    requires
        keys.len() == names.len(),
    ensures
        ({
            let s = sorted_by(keys, names);
            &&& s.keys.len() == s.names.len() == names.len()
            &&& forall|i: int, j: int|
                0 <= i <= j < s.keys.len() ==> sorts_before(
                    #[trigger] s.keys[i],
                    #[trigger] s.keys[j],
                )
            &&& s.names.to_multiset() == names.to_multiset()
            &&& s.keys.to_multiset() == keys.to_multiset()
        }),
    decreases keys.len(),
{
    broadcast use vstd::seq_lib::group_to_multiset_ensures;

    let s = sorted_by(keys, names);
    if keys.len() > 0 {
        let key = keys.last();
        sorting_orders_and_keeps(keys.drop_last(), names.drop_last());
        let before = sorted_by(keys.drop_last(), names.drop_last());
        lemma_place_is_right(before.keys, key);
        let at = place_for(before.keys, key);
        assert forall|i: int, j: int| 0 <= i <= j < s.keys.len() implies sorts_before(
            #[trigger] s.keys[i],
            #[trigger] s.keys[j],
        ) by {
            lemma_not_after_is_an_order(
                vstd::utf8::encode_utf8(key),
                vstd::utf8::encode_utf8(key),
                Seq::empty(),
            );
            if i < at {
                assert(s.keys[i] == before.keys[i]);
            } else if i > at {
                assert(s.keys[i] == before.keys[i - 1]);
            }
            if j < at {
                assert(s.keys[j] == before.keys[j]);
            } else if j > at {
                assert(s.keys[j] == before.keys[j - 1]);
            }
        }
        assert(names =~= names.drop_last().push(names.last()));
        assert(keys =~= keys.drop_last().push(keys.last()));
    } else {
        assert(s.names =~= names);
        assert(s.keys =~= keys);
    }
}

/// In the sorted list equal keys stand together.
pub proof fn equal_keys_stand_together(
    keys: Seq<Seq<char>>,
    names: Seq<Seq<char>>,
    i: int,
    k: int,
    j: int,
)
    requires
        keys.len() == names.len(),
        0 <= i <= k <= j < keys.len(),
        sorted_by(keys, names).keys[i] == sorted_by(keys, names).keys[j],
    ensures
        sorted_by(keys, names).keys[k] == sorted_by(keys, names).keys[i],
{
    sorting_orders_and_keeps(keys, names);
    let s = sorted_by(keys, names);
    assert(sorts_before(s.keys[i], s.keys[k]));
    assert(sorts_before(s.keys[k], s.keys[j]));
    two_names_that_tie_are_one(s.keys[i], s.keys[k]);
}

/// A name that comes in last goes behind every name whose key sorts no later, and
/// before every other; those stay in the order they were in.
pub proof fn a_late_name_goes_behind_its_equals(
    keys: Seq<Seq<char>>,
    names: Seq<Seq<char>>,
    key: Seq<char>,
    name: Seq<char>,
)
    requires
        keys.len() == names.len(),
    ensures
        ({
            let before = sorted_by(keys, names);
            let after = sorted_by(keys.push(key), names.push(name));
            let at = place_for(before.keys, key);
            &&& 0 <= at <= before.names.len() == names.len()
            &&& after.names == before.names.insert(at, name)
            &&& after.keys == before.keys.insert(at, key)
            &&& forall|i: int|
                0 <= i < before.keys.len() ==> (sorts_before(#[trigger] before.keys[i], key)
                    <==> i < at)
        }),
{
    sorting_orders_and_keeps(keys, names);
    let before = sorted_by(keys, names);
    assert(keys.push(key).drop_last() =~= keys);
    assert(names.push(name).drop_last() =~= names);
    lemma_place_is_right(before.keys, key);
    lemma_place_is_strict(before.keys, key);
}

proof fn lemma_place_is_strict(keys: Seq<Seq<char>>, key: Seq<char>)
    ensures
        forall|i: int|
            place_for(keys, key) <= i < keys.len() ==> !sorts_before(#[trigger] keys[i], key),
    decreases keys.len(),
{
    if keys.len() > 0 && !sorts_before(keys.last(), key) {
        let shorter = keys.drop_last();
        lemma_place_is_strict(shorter, key);
        lemma_place_for(shorter, key);
        assert forall|i: int| place_for(keys, key) <= i < keys.len() implies !sorts_before(
            #[trigger] keys[i],
            key,
        ) by {
            if i < shorter.len() {
                assert(shorter[i] == keys[i]);
            }
        }
    }
}

/// Dropping repeats takes one name after the other: a name is left out exactly
/// when it is the one before it over again.
pub proof fn a_name_is_dropped_only_as_a_repeat(names: Seq<Seq<char>>, name: Seq<char>)
    ensures
        without_repeats(Seq::<Seq<char>>::empty()).len() == 0,
        without_repeats(names.push(name)) == (if names.len() > 0 && names.last() == name {
            without_repeats(names)
        } else {
            without_repeats(names).push(name)
        }),
{
    assert(names.push(name).drop_last() =~= names);
}

/// No name is listed twice in a row, and the first of every run stays.
pub proof fn no_name_repeats_the_one_before(names: Seq<Seq<char>>)
    ensures
        ({
            let r = without_repeats(names);
            &&& forall|i: int| 0 < i < r.len() ==> #[trigger] r[i] != r[i - 1]
            &&& forall|k: int| 0 <= k < names.len() ==> r.contains(#[trigger] names[k])
            &&& names.len() > 0 ==> r.len() > 0 && r.last() == names.last()
        }),
    decreases names.len(),
{
    if names.len() > 0 {
        let shorter = names.drop_last();
        no_name_repeats_the_one_before(shorter);
        let before = without_repeats(shorter);
        let r = without_repeats(names);
        if names.len() > 1 {
            assert(shorter.last() == names[names.len() - 2]);
        }
        assert forall|k: int| 0 <= k < names.len() implies r.contains(#[trigger] names[k]) by {
            if k < shorter.len() {
                assert(before.contains(shorter[k]));
                let i = choose|i: int| 0 <= i < before.len() && before[i] == shorter[k];
                assert(r[i] == before[i]);
            } else if names.len() > 1 && names[names.len() - 2] == names.last() {
                assert(r[r.len() - 1] == names.last());
            } else {
                assert(r[r.len() - 1] == names.last());
            }
        }
    }
}

/// The systems that keep presets in places of their own.
#[derive(Clone, Copy, Debug, PartialEq, Eq, Structural)]
pub enum Platform {
    Windows,
    MacOs,
    Other,
}

/// The environment variables a preset folder is found by.
#[derive(Clone, Copy, Debug, PartialEq, Eq, Structural)]
pub enum Variable {
    AppData,
    Home,
    XdgConfigHome,
}

/// A folder below the one an environment variable names.
#[derive(Debug)]
pub struct Folder {
    pub base: Variable,
    pub below: Vec<&'static str>,
}

/// Where presets live: `<config>/EQUZX/presets`, with the configuration folder
/// found by whichever well-known variable is set.
pub fn directory(platform: Platform, app_data: bool, xdg: bool, home: bool) -> (r: Option<Folder>)
    ensures
        match platform {
            Platform::Windows => if app_data {
                r matches Some(f) && f.base == Variable::AppData && f.below@ == seq![
                    "EQUZX",
                    "presets",
                ]
            } else {
                r is None
            },
            Platform::MacOs => if home {
                r matches Some(f) && f.base == Variable::Home && f.below@ == seq![
                    "Library/Application Support",
                    "EQUZX",
                    "presets",
                ]
            } else {
                r is None
            },
            Platform::Other => if xdg {
                r matches Some(f) && f.base == Variable::XdgConfigHome && f.below@ == seq![
                    "EQUZX",
                    "presets",
                ]
            } else if home {
                r matches Some(f) && f.base == Variable::Home && f.below@ == seq![
                    ".config",
                    "EQUZX",
                    "presets",
                ]
            } else {
                r is None
            },
        },
{
    let mut below: Vec<&'static str> = Vec::new();
    let base: Variable = match platform {
        Platform::Windows => {
            if !app_data {
                return None;
            }
            Variable::AppData
        },
        Platform::MacOs => {
            if !home {
                return None;
            }
            below.push("Library/Application Support");
            Variable::Home
        },
        Platform::Other => {
            if xdg {
                Variable::XdgConfigHome
            } else if home {
                below.push(".config");
                Variable::Home
            } else {
                return None;
            }
        },
    };
    below.push("EQUZX");
    below.push("presets");
    Some(Folder { base, below })
}

/// The program that shows a folder in the system file manager.
pub fn reveal_command(platform: Platform) -> (r: &'static str)
    ensures
        r@ == (match platform {
            Platform::Windows => "explorer"@,
            Platform::MacOs => "open"@,
            Platform::Other => "xdg-open"@,
        }),
{
    match platform {
        Platform::Windows => "explorer",
        Platform::MacOs => "open",
        Platform::Other => "xdg-open",
    }
}

/// A preset without a name of its own is called what its file is called, without
/// the extension: `.pst`, `.equz.json` or `.json`.
pub proof fn a_file_names_its_preset(stem: Seq<char>)
    requires
        !ends_in(stem, ".pst"@),
        !ends_in(stem, ".equz.json"@),
        !ends_in(stem, ".json"@),
    ensures
        name_from_file(Some(stem)) == stem,
        name_from_file(Some(stem + ".pst"@)) == stem,
        name_from_file(Some(stem + ".equz.json"@)) == stem,
        !ends_in(stem + ".json"@, ".equz.json"@) ==> name_from_file(Some(stem + ".json"@)) == stem,
        name_from_file(None) == "preset"@,
{
    reveal_strlit(".pst");
    reveal_strlit(".equz.json");
    reveal_strlit(".json");
    reveal_strlit("preset");
    lemma_a_suffix_comes_off(stem, ".equz.json"@);
    lemma_a_suffix_comes_off(stem, ".json"@);
    let old = stem + ".equz.json"@;
    let plain = stem + ".json"@;
    assert(old.last() == 'n' && plain.last() == 'n');
    assert(old.skip(old.len() - 4).last() == old.last());
    assert(plain.skip(plain.len() - 4).last() == plain.last());
    assert(".pst"@.last() == 't' && ".equz.json"@.last() == 'n' && ".json"@.last() == 'n');
    assert("preset"@.skip(2).last() == 't' && "preset"@.skip(2)[0] == 'e');
    assert(".pst"@[0] == '.');
    assert("preset"@.skip(1)[0] == 'r' && ".json"@[0] == '.');
    assert(!ends_in("preset"@, ".pst"@));
    assert(!ends_in("preset"@, ".json"@));
    assert(!ends_in("preset"@, ".equz.json"@));
    let suffix = ".pst"@;
    let whole = stem + suffix;
    assert(whole.skip(whole.len() - suffix.len()) =~= suffix);
    assert(whole.take(whole.len() - suffix.len()) =~= stem);
    assert(without_suffix(stem, suffix) == stem);
    assert(without_suffix(whole, suffix) == stem);
}

proof fn lemma_a_suffix_comes_off(stem: Seq<char>, suffix: Seq<char>)
    requires
        suffix.len() > 0,
        !ends_in(stem, suffix),
    ensures
        without_suffix(stem, suffix) == stem,
        without_suffix(stem + suffix, suffix) == stem,
{
    let whole = stem + suffix;
    assert(whole.skip(whole.len() - suffix.len()) =~= suffix);
    assert(whole.take(whole.len() - suffix.len()) =~= stem);
    assert(without_suffix(stem, suffix) == stem);
}

/// A preset keeps the name it has, and only one whose name is white space is named
/// after its file; nothing but the name changes.
pub proof fn a_preset_keeps_its_name(p: Preset, file: Option<Seq<char>>)
    ensures
        crate::text::trimmed(p.name).len() > 0 ==> named(p, file) == p,
        crate::text::trimmed(p.name).len() == 0 ==> named(p, file).name == name_from_file(file),
        named(p, file).scene == p.scene,
        named(p, file).version == p.version,
{
}

} // verus!
