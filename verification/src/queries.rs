//! Query text builders for the host's subscription layer, and the player
//! status vocabulary. The numeric arguments are rendered in decimal by a
//! verified formatter.

use vstd::prelude::*;

verus! {

/// Player connection and gameplay states.
#[derive(Clone, Copy, Debug, PartialEq, Eq, Structural)]
pub enum PlayerStatus {
    /// Connected and active.
    Online,
    /// Disconnected.
    Offline,
    /// Connected but inactive.
    Away,
    /// Actively engaged in gameplay.
    Playing,
}

/// The decimal digit character of one digit value.
pub open spec fn spec_digit_char(d: int) -> char {
    if d == 0 {
        '0'
    } else if d == 1 {
        '1'
    } else if d == 2 {
        '2'
    } else if d == 3 {
        '3'
    } else if d == 4 {
        '4'
    } else if d == 5 {
        '5'
    } else if d == 6 {
        '6'
    } else if d == 7 {
        '7'
    } else if d == 8 {
        '8'
    } else {
        '9'
    }
}

/// The decimal spelling of a non-negative integer: most significant
/// digit first, no leading zeroes except for zero itself.
pub open spec fn spec_dec_nat(n: int) -> Seq<char>
    decreases n,
{
    if n < 10 {
        seq![spec_digit_char(n)]
    } else {
        spec_dec_nat(n / 10).push(spec_digit_char(n % 10))
    }
}

/// The decimal spelling of a signed integer: a minus sign before the
/// magnitude for negative values.
pub open spec fn spec_dec_int(n: int) -> Seq<char> {
    if n < 0 {
        seq!['-'] + spec_dec_nat(-n)
    } else {
        spec_dec_nat(n)
    }
}

/// One decimal digit as text.
fn digit_str(d: u32) -> (r: &'static str)
    requires
        d < 10,
    ensures
        r@ == seq![spec_digit_char(d as int)],
{
    proof {
        reveal_strlit("0");
        reveal_strlit("1");
        reveal_strlit("2");
        reveal_strlit("3");
        reveal_strlit("4");
        reveal_strlit("5");
        reveal_strlit("6");
        reveal_strlit("7");
        reveal_strlit("8");
        reveal_strlit("9");
    }
    let r = if d == 0 {
        "0"
    } else if d == 1 {
        "1"
    } else if d == 2 {
        "2"
    } else if d == 3 {
        "3"
    } else if d == 4 {
        "4"
    } else if d == 5 {
        "5"
    } else if d == 6 {
        "6"
    } else if d == 7 {
        "7"
    } else if d == 8 {
        "8"
    } else {
        "9"
    };
    proof {
        assert(r@ =~= seq![spec_digit_char(d as int)]);
    }
    r
}

/// Render a non-negative integer in decimal.
pub fn dec_u32(n: u32) -> (r: String)
    ensures
        r@ == spec_dec_nat(n as int),
    decreases n,
{
    if n < 10 {
        let s = digit_str(n);
        let r = String::from_str(s);
        r
    } else {
        let high = dec_u32(n / 10);
        let low = digit_str(n % 10);
        let r = high.concat(low);
        proof {
            assert(r@ =~= spec_dec_nat(n as int / 10).push(spec_digit_char(n as int % 10)));
        }
        r
    }
}

/// Render a signed integer in decimal.
pub fn dec_i32(n: i32) -> (r: String)
    ensures
        r@ == spec_dec_int(n as int),
{
    if n >= 0 {
        dec_u32(n as u32)
    } else {
        let mag: u32 = ((-(n as i64)) as u32);
        let minus = String::from_str("-");
        let r = minus.concat(dec_u32(mag).as_str());
        proof {
            reveal_strlit("-");
            assert("-"@ =~= seq!['-']);
            assert(r@ =~= seq!['-'] + spec_dec_nat(mag as int));
        }
        r
    }
}

/// The query for the players in one chunk.
pub fn players_in_chunk(chunk_x: i32, chunk_y: i32) -> (r: String)
    ensures
        r@ == "SELECT * FROM player WHERE chunk_x = "@ + spec_dec_int(chunk_x as int)
            + " AND chunk_y = "@ + spec_dec_int(chunk_y as int),
{
    let r = String::from_str("SELECT * FROM player WHERE chunk_x = ").concat(
        dec_i32(chunk_x).as_str(),
    ).concat(" AND chunk_y = ").concat(dec_i32(chunk_y).as_str());
    r
}

/// The query for the dropped items in one chunk.
pub fn items_in_chunk(chunk_x: i32, chunk_y: i32) -> (r: String)
    ensures
        r@ == "SELECT * FROM game_item WHERE chunk_x = "@ + spec_dec_int(chunk_x as int)
            + " AND chunk_y = "@ + spec_dec_int(chunk_y as int) + " AND is_dropped = true"@,
{
    let r = String::from_str("SELECT * FROM game_item WHERE chunk_x = ").concat(
        dec_i32(chunk_x).as_str(),
    ).concat(" AND chunk_y = ").concat(dec_i32(chunk_y).as_str()).concat(" AND is_dropped = true");
    r
}

/// The query for one player's carried inventory.
pub fn player_inventory(player_id: &str) -> (r: String)
    ensures
        r@ == "SELECT * FROM game_item WHERE owner_id = '"@ + player_id@
            + "' AND is_dropped = false"@,
{
    let r = String::from_str("SELECT * FROM game_item WHERE owner_id = '").concat(
        player_id,
    ).concat("' AND is_dropped = false");
    r
}

/// The query for the players with a given status.
pub fn players_by_status(status: &str) -> (r: String)
    ensures
        r@ == "SELECT * FROM player WHERE status = '"@ + status@ + "'"@,
{
    let r = String::from_str("SELECT * FROM player WHERE status = '").concat(status).concat("'");
    r
}

/// The queries for the players and dropped items within a square chunk
/// radius: one per table, over the bounding chunk window.
pub fn nearby_entities(chunk_x: i32, chunk_y: i32, radius: i32) -> (r: Vec<String>)
    requires
        -1_000_000 <= chunk_x <= 1_000_000,
        -1_000_000 <= chunk_y <= 1_000_000,
        0 <= radius <= 1_000_000,
    ensures
        r@.len() == 2,
        r@[0]@ == "SELECT * FROM player WHERE chunk_x BETWEEN "@ + spec_dec_int(
            chunk_x - radius,
        ) + " AND "@ + spec_dec_int(chunk_x + radius) + " AND chunk_y BETWEEN "@ + spec_dec_int(
            chunk_y - radius,
        ) + " AND "@ + spec_dec_int(chunk_y + radius),
        r@[1]@ == "SELECT * FROM game_item WHERE chunk_x BETWEEN "@ + spec_dec_int(
            chunk_x - radius,
        ) + " AND "@ + spec_dec_int(chunk_x + radius) + " AND chunk_y BETWEEN "@ + spec_dec_int(
            chunk_y - radius,
        ) + " AND "@ + spec_dec_int(chunk_y + radius) + " AND is_dropped = true"@,
{
    let min_x = chunk_x - radius;
    let max_x = chunk_x + radius;
    let min_y = chunk_y - radius;
    let max_y = chunk_y + radius;
    let players = String::from_str("SELECT * FROM player WHERE chunk_x BETWEEN ").concat(
        dec_i32(min_x).as_str(),
    ).concat(" AND ").concat(dec_i32(max_x).as_str()).concat(" AND chunk_y BETWEEN ").concat(
        dec_i32(min_y).as_str(),
    ).concat(" AND ").concat(dec_i32(max_y).as_str());
    let items = String::from_str("SELECT * FROM game_item WHERE chunk_x BETWEEN ").concat(
        dec_i32(min_x).as_str(),
    ).concat(" AND ").concat(dec_i32(max_x).as_str()).concat(" AND chunk_y BETWEEN ").concat(
        dec_i32(min_y).as_str(),
    ).concat(" AND ").concat(dec_i32(max_y).as_str()).concat(" AND is_dropped = true");
    let mut r: Vec<String> = Vec::new();
    r.push(players);
    r.push(items);
    r
}

} // verus!
