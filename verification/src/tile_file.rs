//! Tiles as files: what a tile file is, and where a tile is saved.

use vstd::prelude::*;
use vstd::string::StringExecFns;

verus! {

/// The directory that tiles are loaded from and saved into.
pub const TILE_DIRECTORY: &'static str = "tile_images";

/// A tile as a file: where the file lies, and what it holds.
#[derive(Debug, PartialEq, Eq)]
pub struct TileFile {
    pub path: String,
    pub bytes: Vec<u8>,
}

/// A tile file as mathematical values.
pub struct TileFileView {
    pub path: Seq<char>,
    pub bytes: Seq<u8>,
}

impl View for TileFile {
    type V = TileFileView;

    open spec fn view(&self) -> TileFileView {
        TileFileView { path: self.path@, bytes: self.bytes@ }
    }
}

/// The views of a list of tile files.
pub open spec fn file_views(files: Seq<TileFile>) -> Seq<TileFileView> {
    Seq::new(files.len(), |i: int| files[i]@)
}

/// The character that stands for the digit `d`.
pub open spec fn digit_char(d: int) -> char {
    if d == 0 {
        '0'
    } else if d == 1 {
        '1'
    } else if d == 2 {
        '2'
    } else if d == 3 {
        '3'
    } else if d == 4 {
        '4'
    } else if d == 5 {
        '5'
    } else if d == 6 {
        '6'
    } else if d == 7 {
        '7'
    } else if d == 8 {
        '8'
    } else {
        '9'
    }
}

/// `n` written in decimal, without leading zeros.
pub open spec fn decimal(n: nat) -> Seq<char>
    decreases n,
{
    if n < 10 {
        seq![digit_char(n as int)]
    } else {
        decimal(n / 10).push(digit_char((n % 10) as int))
    }
}

/// The path of the file that the tile with identifier `id` is saved to: in
/// the tile directory, `test_`, the identifier in decimal, and `.png`.
pub open spec fn tile_path(id: usize) -> Seq<char> {
    TILE_DIRECTORY@ + "/test_"@ + decimal(id as nat) + ".png"@
}

/// Two numbers that are written alike in decimal are the same number.
pub proof fn lemma_decimal_tells_numbers_apart(a: nat, b: nat)
    requires
        decimal(a) == decimal(b),
    ensures
        a == b,
    decreases a,
{
    lemma_decimal_len(a);
    lemma_decimal_len(b);
    if a < 10 || b < 10 {
        assert(decimal(a).len() == decimal(b).len());
        assert(a < 10 && b < 10);
        assert(decimal(a)[0] == digit_char(a as int));
        assert(decimal(b)[0] == digit_char(b as int));
        lemma_digits_differ(a as int, b as int);
    } else {
        let front_a = decimal(a / 10);
        let front_b = decimal(b / 10);
        assert(decimal(a) == front_a.push(digit_char((a % 10) as int)));
        assert(decimal(b) == front_b.push(digit_char((b % 10) as int)));
        assert(decimal(a).last() == digit_char((a % 10) as int));
        assert(decimal(b).last() == digit_char((b % 10) as int));
        assert(front_a =~= decimal(a).drop_last());
        assert(front_b =~= decimal(b).drop_last());
        lemma_decimal_tells_numbers_apart(a / 10, b / 10);
        lemma_digits_differ((a % 10) as int, (b % 10) as int);
    }
}

proof fn lemma_digits_differ(x: int, y: int)
    requires
        0 <= x < 10,
        0 <= y < 10,
        digit_char(x) == digit_char(y),
    ensures
        x == y,
{
}

proof fn lemma_decimal_len(n: nat)
    ensures
        decimal(n).len() >= 1,
        n >= 10 ==> decimal(n).len() >= 2,
    decreases n,
{
    if n >= 10 {
        lemma_decimal_len(n / 10);
    }
}

/// Tiles with different identifiers are saved to different paths.
pub proof fn lemma_tile_paths_differ(a: usize, b: usize)
    requires
        a != b,
    ensures
        tile_path(a) != tile_path(b),
{
    let front = TILE_DIRECTORY@ + "/test_"@;
    let back = ".png"@;
    let da = decimal(a as nat);
    let db = decimal(b as nat);
    if tile_path(a) == tile_path(b) {
        assert(tile_path(a).len() == front.len() + da.len() + back.len());
        assert(tile_path(b).len() == front.len() + db.len() + back.len());
        assert forall|i: int| 0 <= i < da.len() implies da[i] == db[i] by {
            assert(tile_path(a)[front.len() + i] == da[i]);
            assert(tile_path(b)[front.len() + i] == db[i]);
        }
        assert(da =~= db);
        lemma_decimal_tells_numbers_apart(a as nat, b as nat);
    }
}

fn digit_str(d: usize) -> (text: &'static str)
    requires
        d < 10,
    ensures
        text@ == seq![digit_char(d as int)],
{
    proof {
        reveal_strlit("0");
        reveal_strlit("1");
        reveal_strlit("2");
        reveal_strlit("3");
        reveal_strlit("4");
        reveal_strlit("5");
        reveal_strlit("6");
        reveal_strlit("7");
        reveal_strlit("8");
        reveal_strlit("9");
    }
    let text = if d == 0 {
        "0"
    } else if d == 1 {
        "1"
    } else if d == 2 {
        "2"
    } else if d == 3 {
        "3"
    } else if d == 4 {
        "4"
    } else if d == 5 {
        "5"
    } else if d == 6 {
        "6"
    } else if d == 7 {
        "7"
    } else if d == 8 {
        "8"
    } else {
        "9"
    };
    assert(text@ =~= seq![digit_char(d as int)]);
    text
}

fn push_decimal(text: &mut String, n: usize)
    ensures
        final(text)@ == old(text)@ + decimal(n as nat),
    decreases n,
{
    if n >= 10 {
        push_decimal(text, n / 10);
    }
    text.append(digit_str(n % 10));
    assert(text@ =~= old(text)@ + decimal(n as nat));
}

/// The path of the file that the tile with identifier `id` is saved to.
pub fn tile_file_path(id: usize) -> (path: String)
    ensures
        path@ == tile_path(id),
{
    let mut path = String::from_str(TILE_DIRECTORY);
    path.append("/test_");
    push_decimal(&mut path, id);
    path.append(".png");
    path
}

} // verus!
