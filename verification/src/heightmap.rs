//! A slice of a field as text.
use crate::chunk::CHUNK_DIM;
use vstd::prelude::*;

verus! {

/// How many shades the text form tells apart.
pub const SHADES: u8 = 10;

/// The character of a shade, from dark to bright.
pub open spec fn shade(level: u8) -> char {
    if level == 0 {
        ' '
    } else if level == 1 {
        '.'
    } else if level == 2 {
        ':'
    } else if level == 3 {
        '-'
    } else if level == 4 {
        '='
    } else if level == 5 {
        '+'
    } else if level == 6 {
        '*'
    } else if level == 7 {
        '#'
    } else if level == 8 {
        '%'
    } else {
        '@'
    }
}

fn shade_str(level: u8) -> (r: &'static str)
    ensures
        r@ == seq![shade(level)],
{
    proof {
        reveal_strlit(" ");
        reveal_strlit(".");
        reveal_strlit(":");
        reveal_strlit("-");
        reveal_strlit("=");
        reveal_strlit("+");
        reveal_strlit("*");
        reveal_strlit("#");
        reveal_strlit("%");
        reveal_strlit("@");
    }
    if level == 0 {
        " "
    } else if level == 1 {
        "."
    } else if level == 2 {
        ":"
    } else if level == 3 {
        "-"
    } else if level == 4 {
        "="
    } else if level == 5 {
        "+"
    } else if level == 6 {
        "*"
    } else if level == 7 {
        "#"
    } else if level == 8 {
        "%"
    } else {
        "@"
    }
}

/// The text of the first cells of a slice, row by row, each row ended.
pub open spec fn shaded(levels: Seq<u8>) -> Seq<char>
    decreases levels.len(),
{
    if levels.len() == 0 {
        Seq::empty()
    } else {
        let rest = shaded(levels.drop_last()).push(shade(levels.last()));
        if levels.len() as int % CHUNK_DIM as int == 0 {
            rest.push('\n')
        } else {
            rest
        }
    }
}

/// Render a slice as text over its quantized levels, row by row. A level beyond
/// the brightest shows as the brightest.
pub fn ascii_heightmap(levels: &Vec<u8>) -> (r: String)
    ensures
        r@ == shaded(levels@),
{
    proof {
        reveal_strlit("\n");
    }
    let mut out = String::new();
    let mut k: usize = 0;
    while k < levels.len()
        invariant
            k <= levels@.len(),
            out@ == shaded(levels@.take(k as int)),
            "\n"@ =~= seq!['\n'],
        decreases levels@.len() - k,
    {
        let ghost before = out@;
        proof {
            assert(levels@.take(k + 1).drop_last() =~= levels@.take(k as int));
        }
        out.append(shade_str(levels[k]));
        assert(out@ =~= before.push(shade(levels@[k as int])));
        k = k + 1;
        if k % CHUNK_DIM == 0 {
            let ghost row = out@;
            out.append("\n");
            assert(out@ =~= row.push('\n'));
        }
    }
    assert(levels@.take(k as int) =~= levels@);
    out
}

/// Every row of a slice takes one character per cell and one to end it.
pub proof fn rows_have_equal_length(levels: Seq<u8>)
    ensures
        shaded(levels).len() == levels.len() + levels.len() as int / CHUNK_DIM as int,
    decreases levels.len(),
{
    if levels.len() > 0 {
        rows_have_equal_length(levels.drop_last());
    }
}

} // verus!
