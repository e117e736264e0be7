//! The sharding policy of the database backend: which table holds a tile.
//!
//! Zoom levels 0 to 9 share the single table `blocks`.  Above that, tiles
//! are spread over tables named `blocks_{zoom}_{x / 512}_{y / 512}` (integer
//! division), keyed by the TMS coordinates, to bound each table's size.

use vstd::prelude::*;
use vstd::string::StringExecFns;

verus! {

/// The character for decimal digit `d`.
pub open spec fn digit_char(d: int) -> char {
    if d == 0 {
        '0'
    } else if d == 1 {
        '1'
    } else if d == 2 {
        '2'
    } else if d == 3 {
        '3'
    } else if d == 4 {
        '4'
    } else if d == 5 {
        '5'
    } else if d == 6 {
        '6'
    } else if d == 7 {
        '7'
    } else if d == 8 {
        '8'
    } else {
        '9'
    }
}

/// The decimal numeral for `n`, most significant digit first, no sign and
/// no leading zero.
pub open spec fn dec_chars(n: int) -> Seq<char>
    decreases n,
{
    if n < 10 {
        seq![digit_char(n)]
    } else {
        dec_chars(n / 10).push(digit_char(n % 10))
    }
}

fn digit_str(d: u32) -> (r: &'static str)
    requires
        d <= 9,
    ensures
        r@ == seq![digit_char(d as int)],
{
    let r = if d == 0 {
        "0"
    } else if d == 1 {
        "1"
    } else if d == 2 {
        "2"
    } else if d == 3 {
        "3"
    } else if d == 4 {
        "4"
    } else if d == 5 {
        "5"
    } else if d == 6 {
        "6"
    } else if d == 7 {
        "7"
    } else if d == 8 {
        "8"
    } else {
        "9"
    };
    proof {
        reveal_strlit("0");
        reveal_strlit("1");
        reveal_strlit("2");
        reveal_strlit("3");
        reveal_strlit("4");
        reveal_strlit("5");
        reveal_strlit("6");
        reveal_strlit("7");
        reveal_strlit("8");
        reveal_strlit("9");
        assert(r@ =~= seq![digit_char(d as int)]);
    }
    r
}

/// `n` written in decimal.
pub fn u32_decimal(n: u32) -> (r: String)
    ensures
        r@ == dec_chars(n as int),
    decreases n,
{
    if n < 10 {
        digit_str(n).to_owned()
    } else {
        let mut s = u32_decimal(n / 10);
        s.append(digit_str(n % 10));
        proof {
            assert(dec_chars((n / 10) as int) + seq![digit_char((n % 10) as int)] =~= dec_chars(
                (n / 10) as int,
            ).push(digit_char((n % 10) as int)));
        }
        s
    }
}

/// The name of the table holding the tile at TMS coordinates `(x, y)` and
/// zoom `z`: `blocks` up to zoom 9, `blocks_{z}_{x / 512}_{y / 512}` above.
pub open spec fn table_name_spec(z: u32, x: u32, y: u32) -> Seq<char> {
    if z <= 9 {
        "blocks"@
    } else {
        "blocks_"@ + dec_chars(z as int) + "_"@ + dec_chars((x as int) / 512) + "_"@ + dec_chars(
            (y as int) / 512,
        )
    }
}

/// The shard table for zoom `z` and TMS coordinates `(x, y)`.
pub fn table_name(z: u32, x: u32, y: u32) -> (r: String)
    ensures
        r@ == table_name_spec(z, x, y),
{
    if z <= 9 {
        return String::from_str("blocks");
    }
    let mut t = String::from_str("blocks_");
    let zs = u32_decimal(z);
    t.append(zs.as_str());
    t.append("_");
    let xs = u32_decimal(x / 512);
    t.append(xs.as_str());
    t.append("_");
    let ys = u32_decimal(y / 512);
    t.append(ys.as_str());
    t
}

} // verus!
