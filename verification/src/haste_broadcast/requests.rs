//! What an HTTP broadcast client asks for: the URLs of the sync, start and fragment resources
//! of a broadcast, and the user agent it sends.

use crate::haste_broadcast::httpbroadcast::{AppId, FragmentType};
use vstd::prelude::*;
use vstd::string::StringExecFns;

verus! {

/// The character of a decimal digit.
pub open spec fn digit_char(d: nat) -> char {
    if d == 0 {
        '0'
    } else if d == 1 {
        '1'
    } else if d == 2 {
        '2'
    } else if d == 3 {
        '3'
    } else if d == 4 {
        '4'
    } else if d == 5 {
        '5'
    } else if d == 6 {
        '6'
    } else if d == 7 {
        '7'
    } else if d == 8 {
        '8'
    } else {
        '9'
    }
}

/// The decimal digits of `n`, most significant first, without leading zeros.
pub open spec fn decimal(n: nat) -> Seq<char>
    decreases n,
{
    if n < 10 {
        seq![digit_char(n)]
    } else {
        decimal(n / 10).push(digit_char(n % 10))
    }
}

/// `v` in decimal, with a minus sign in front of a negative number.
pub open spec fn signed_decimal(v: int) -> Seq<char> {
    if v < 0 {
        seq!['-'] + decimal((-v) as nat)
    } else {
        decimal(v as nat)
    }
}

/// The text of a decimal digit.
fn digit_str(d: u64) -> (r: &'static str)
    requires
        d < 10,
    ensures
        r@ == seq![digit_char(d as nat)],
{
    proof {
        reveal_strlit("0");
        reveal_strlit("1");
        reveal_strlit("2");
        reveal_strlit("3");
        reveal_strlit("4");
        reveal_strlit("5");
        reveal_strlit("6");
        reveal_strlit("7");
        reveal_strlit("8");
        reveal_strlit("9");
    }
    if d == 0 {
        "0"
    } else if d == 1 {
        "1"
    } else if d == 2 {
        "2"
    } else if d == 3 {
        "3"
    } else if d == 4 {
        "4"
    } else if d == 5 {
        "5"
    } else if d == 6 {
        "6"
    } else if d == 7 {
        "7"
    } else if d == 8 {
        "8"
    } else {
        "9"
    }
}

/// Appends `n` in decimal.
fn push_decimal(s: &mut String, n: u64)
    ensures
        final(s)@ == old(s)@ + decimal(n as nat),
    decreases n,
{
    if n >= 10 {
        push_decimal(s, n / 10);
    }
    s.append(digit_str(n % 10));
    proof {
        if n >= 10 {
            assert(old(s)@ + decimal((n / 10) as nat) + seq![digit_char((n % 10) as nat)] =~= old(s)@
                + decimal(n as nat));
        } else {
            assert(decimal(n as nat) == seq![digit_char(n as nat)]);
        }
    }
}

/// Appends `v` in decimal, with a minus sign in front of a negative number.
fn push_signed_decimal(s: &mut String, v: i32)
    ensures
        final(s)@ == old(s)@ + signed_decimal(v as int),
{
    if v < 0 {
        s.append("-");
        proof {
            reveal_strlit("-");
        }
        let m: i64 = 0i64 - v as i64;
        push_decimal(s, m as u64);
        proof {
            assert(old(s)@ + seq!['-'] + decimal(m as nat) =~= old(s)@ + signed_decimal(v as int));
        }
    } else {
        push_decimal(s, v as u64);
    }
}

/// The URL of the sync resource of the broadcast at `base_uri`: `{base_uri}/sync`.
pub fn sync_url(base_uri: &str) -> (r: String)
    ensures
        r@ == base_uri@ + "/sync"@,
{
    let mut s = String::from_str(base_uri);
    s.append("/sync");
    s
}

/// The URL of the start resource of the broadcast at `base_uri`, from its signup fragment:
/// `{base_uri}/{signup_fragment}/start`.
pub fn start_url(base_uri: &str, signup_fragment: i32) -> (r: String)
    requires
        signup_fragment >= 0,
    ensures
        r@ == base_uri@ + "/"@ + decimal(signup_fragment as nat) + "/start"@,
{
    let mut s = String::from_str(base_uri);
    s.append("/");
    push_decimal(&mut s, signup_fragment as u64);
    s.append("/start");
    s
}

/// The name of a kind of fragment in its URL.
pub open spec fn fragment_type_path(typ: FragmentType) -> Seq<char> {
    match typ {
        FragmentType::Delta => "delta"@,
        FragmentType::Full => "full"@,
    }
}

/// The URL of fragment `fragment` of the broadcast at `base_uri`:
/// `{base_uri}/{fragment}/delta` or `{base_uri}/{fragment}/full`.
pub fn fragment_url(base_uri: &str, fragment: i32, typ: FragmentType) -> (r: String)
    ensures
        r@ == base_uri@ + "/"@ + signed_decimal(fragment as int) + "/"@ + fragment_type_path(typ),
{
    let mut s = String::from_str(base_uri);
    s.append("/");
    push_signed_decimal(&mut s, fragment);
    s.append("/");
    match typ {
        FragmentType::Delta => s.append("delta"),
        FragmentType::Full => s.append("full"),
    }
    s
}

/// The user agent that the Steam client sends for the game `app_id`:
/// `Valve/Steam HTTP Client 1.0 ({id})`.
pub fn user_agent(app_id: AppId) -> (r: String)
    ensures
        r@ == "Valve/Steam HTTP Client 1.0 ("@ + decimal(1422450) + ")"@,
{
    let mut s = String::from_str("Valve/Steam HTTP Client 1.0 (");
    push_decimal(&mut s, app_id.id() as u64);
    s.append(")");
    s
}

} // verus!
