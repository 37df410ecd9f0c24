use vstd::prelude::*;
use crate::codec::{escape_string, push_all, push_escaped_str, str_chars};
use crate::ext;

verus! {

// ---------------------------------------------------------------------------
// The user endpoints' data and the JSON they answer with.
// ---------------------------------------------------------------------------

/// The identifier every created user gets in this demo.
pub const DEFAULT_USER_ID: u64 = 13337;

/// The body of a user-creation request.
pub struct CreateUser {
    pub username: String,
}

/// A user record as the endpoints answer it.
pub struct User {
    pub id: u64,
    pub username: String,
    pub city: String,
}

/// The decimal digit for a value below 10.
pub open spec fn dec_digit(d: int) -> char {
    if d == 0 {
        '0'
    } else if d == 1 {
        '1'
    } else if d == 2 {
        '2'
    } else if d == 3 {
        '3'
    } else if d == 4 {
        '4'
    } else if d == 5 {
        '5'
    } else if d == 6 {
        '6'
    } else if d == 7 {
        '7'
    } else if d == 8 {
        '8'
    } else {
        '9'
    }
}

/// The decimal notation of a number, most significant digit first.
pub open spec fn dec_str(n: int) -> Seq<char>
    decreases n
        when n >= 0
{
    if n < 10 {
        seq![dec_digit(n)]
    } else {
        dec_str(n / 10) + seq![dec_digit(n % 10)]
    }
}

/// The JSON body answering with a user record:
/// `{"id":<id>,"username":"<username>","city":"<city>"}`.
pub open spec fn user_json(id: int, username: Seq<char>, city: Seq<char>) -> Seq<char> {
    seq!['{', '"', 'i', 'd', '"', ':'] + dec_str(id) + seq![',', '"', 'u', 's', 'e', 'r', 'n', 'a',
        'm', 'e', '"', ':', '"'] + escape_string(username) + seq!['"', ',', '"', 'c', 'i', 't',
        'y', '"', ':', '"'] + escape_string(city) + seq!['"', '}']
}

fn dec_digit_exec(d: u64) -> (c: char)
    requires
        d < 10,
    ensures
        c == dec_digit(d as int),
{
    if d == 0 {
        '0'
    } else if d == 1 {
        '1'
    } else if d == 2 {
        '2'
    } else if d == 3 {
        '3'
    } else if d == 4 {
        '4'
    } else if d == 5 {
        '5'
    } else if d == 6 {
        '6'
    } else if d == 7 {
        '7'
    } else if d == 8 {
        '8'
    } else {
        '9'
    }
}

fn push_dec(out: &mut Vec<char>, n: u64)
    ensures
        final(out)@ == old(out)@ + dec_str(n as int),
    decreases n,
{
    if n < 10 {
        out.push(dec_digit_exec(n));
        proof {
            assert(out@ =~= old(out)@ + dec_str(n as int));
        }
    } else {
        push_dec(out, n / 10);
        out.push(dec_digit_exec(n % 10));
        proof {
            assert(out@ =~= old(out)@ + (dec_str(n as int / 10) + seq![dec_digit(n as int % 10)]));
        }
    }
}

/// Build the user a creation request answers with: the fixed identifier, the
/// requested username, and a generated city.
pub fn create_user(input: CreateUser) -> (u: User)
    ensures
        u.id == DEFAULT_USER_ID,
        u.username@ == input.username@,
{
    User { id: DEFAULT_USER_ID, username: input.username, city: ext::fake_city() }
}

/// Build the registration answer and its cookie token: a fresh random
/// identifier, the fixed demo username, a generated city, and a fresh
/// 36-character token.
pub fn register() -> (r: (User, String))
    ensures
        r.0.username@ == "Demo"@,
        r.1@.len() == 36,
{
    let id = ext::new_numeric_id();
    let token = ext::new_token();
    let user = User { id, username: "Demo".to_owned(), city: ext::fake_city() };
    (user, token)
}

/// Render a user record as its JSON body.
pub fn user_to_json(u: &User) -> (r: String)
    ensures
        r@ == user_json(u.id as int, u.username@, u.city@),
{
    let mut out: Vec<char> = Vec::new();
    let head: Vec<char> = vec!['{', '"', 'i', 'd', '"', ':'];
    proof {
        assert(head@ =~= seq!['{', '"', 'i', 'd', '"', ':']);
    }
    push_all(&mut out, &head);
    push_dec(&mut out, u.id);
    let mid: Vec<char> = vec![',', '"', 'u', 's', 'e', 'r', 'n', 'a', 'm', 'e', '"', ':', '"'];
    proof {
        assert(mid@ =~= seq![',', '"', 'u', 's', 'e', 'r', 'n', 'a', 'm', 'e', '"', ':', '"']);
    }
    push_all(&mut out, &mid);
    let name_chars = str_chars(u.username.as_str());
    push_escaped_str(&mut out, &name_chars);
    let mid2: Vec<char> = vec!['"', ',', '"', 'c', 'i', 't', 'y', '"', ':', '"'];
    proof {
        assert(mid2@ =~= seq!['"', ',', '"', 'c', 'i', 't', 'y', '"', ':', '"']);
    }
    push_all(&mut out, &mid2);
    let city_chars = str_chars(u.city.as_str());
    push_escaped_str(&mut out, &city_chars);
    out.push('"');
    out.push('}');
    proof {
        assert(out@ =~= user_json(u.id as int, u.username@, u.city@));
    }
    ext::chars_to_string(out)
}

} // verus!
