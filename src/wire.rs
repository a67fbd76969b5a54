//! The line protocol's requests: one JSON object per line, naming an action
//! and carrying its payload; and what a reply says.

use vstd::prelude::*;
use crate::clock::{decimal, decimal_string};
use crate::text::{chars_of, push_char};

verus! {

/// A lowercase hexadecimal digit.
pub open spec fn hex_digit(d: nat) -> char {
    if d < 10 {
        (48 + d) as char
    } else {
        (87 + d) as char
    }
}

/// How one character is written inside a JSON string: quote and backslash
/// escaped, the named control escapes, other control characters as
/// `\u00XX` in lowercase hex, everything else as itself.
pub open spec fn json_escape(c: char) -> Seq<char> {
    let v = c as u32;
    if c == '"' {
        seq!['\\', '"']
    } else if c == '\\' {
        seq!['\\', '\\']
    } else if v == 0x8 {
        seq!['\\', 'b']
    } else if v == 0x9 {
        seq!['\\', 't']
    } else if v == 0xa {
        seq!['\\', 'n']
    } else if v == 0xc {
        seq!['\\', 'f']
    } else if v == 0xd {
        seq!['\\', 'r']
    } else if v < 0x20 {
        seq!['\\', 'u', '0', '0', hex_digit((v / 16) as nat), hex_digit((v % 16) as nat)]
    } else {
        seq![c]
    }
}

/// The characters of `s`, each escaped for a JSON string.
pub open spec fn json_escaped(s: Seq<char>) -> Seq<char>
    decreases s.len(),
{
    if s.len() == 0 {
        Seq::empty()
    } else {
        json_escaped(s.drop_last()) + json_escape(s.last())
    }
}

/// The JSON text of a string value: its escaped characters between quotes.
pub open spec fn json_text_of(s: Seq<char>) -> Seq<char> {
    seq!['"'] + json_escaped(s) + seq!['"']
}

/// Relies on `serde_json::to_string` on a `&str`: the string as a JSON
/// string literal, escaped by serde_json's table. Writing into memory cannot
/// fail, so the error arm is never taken.
#[verifier::external_body]
fn json_string(s: &str) -> (r: String)
    ensures
        r@ == json_text_of(s@),
{
    match serde_json::to_string(s) {
        Ok(j) => j,
        Err(_) => String::new(),
    }
}

/// `"key":value` pairs joined by commas.
pub open spec fn members(fields: Seq<(Seq<char>, Seq<char>)>) -> Seq<char>
    decreases fields.len(),
{
    if fields.len() == 0 {
        Seq::empty()
    } else {
        let f = fields.last();
        let sep = if fields.len() > 1 {
            seq![',']
        } else {
            Seq::empty()
        };
        members(fields.drop_last()) + sep + seq!['"'] + f.0 + seq!['"', ':'] + f.1
    }
}

/// A JSON object with the given keys (plain names) and value texts.
pub open spec fn object_text(fields: Seq<(Seq<char>, Seq<char>)>) -> Seq<char> {
    seq!['{'] + members(fields) + seq!['}']
}

/// A request: the action's name and its payload object.
pub open spec fn request_text(action: Seq<char>, payload: Seq<(Seq<char>, Seq<char>)>) -> Seq<char> {
    object_text(seq![("action"@, json_text_of(action)), ("payload"@, object_text(payload))])
}

pub open spec fn fields_view(v: Seq<(String, String)>) -> Seq<(Seq<char>, Seq<char>)> {
    v.map_values(|f: (String, String)| (f.0@, f.1@))
}

fn append_str(s: &mut String, t: &str)
    ensures
        final(s)@ == old(s)@ + t@,
{
    let v = chars_of(t);
    let mut i: usize = 0;
    while i < v.len()
        invariant
            i <= v@.len(),
            v@ == t@,
            s@ == old(s)@ + v@.take(i as int),
        decreases v@.len() - i,
    {
        push_char(s, v[i]);
        proof {
            assert(s@ =~= old(s)@ + v@.take(i + 1));
        }
        i = i + 1;
    }
    proof {
        assert(v@.take(i as int) =~= v@);
    }
}

/// A JSON object from keys and value texts, in the order given.
pub fn object(fields: &Vec<(String, String)>) -> (r: String)
    ensures
        r@ == object_text(fields_view(fields@)),
{
    let mut s = String::new();
    push_char(&mut s, '{');
    let ghost fv = fields_view(fields@);
    let mut i: usize = 0;
    proof {
        assert(fv.take(0) =~= Seq::<(Seq<char>, Seq<char>)>::empty());
        assert(s@ =~= seq!['{'] + members(fv.take(0)));
    }
    while i < fields.len()
        invariant
            i <= fields@.len(),
            fv == fields_view(fields@),
            s@ == seq!['{'] + members(fv.take(i as int)),
        decreases fields@.len() - i,
    {
        let ghost before = s@;
        if i > 0 {
            push_char(&mut s, ',');
        }
        push_char(&mut s, '"');
        append_str(&mut s, fields[i].0.as_str());
        push_char(&mut s, '"');
        push_char(&mut s, ':');
        append_str(&mut s, fields[i].1.as_str());
        proof {
            let t = fv.take(i + 1);
            assert(t.drop_last() =~= fv.take(i as int));
            assert(t.last() == (fields@[i as int].0@, fields@[i as int].1@));
            let sep: Seq<char> = if i > 0 {
                seq![',']
            } else {
                Seq::empty()
            };
            assert(s@ =~= before + sep + seq!['"'] + t.last().0 + seq!['"', ':'] + t.last().1);
            assert(s@ =~= seq!['{'] + members(t));
        }
        i = i + 1;
    }
    push_char(&mut s, '}');
    proof {
        assert(fv.take(i as int) =~= fv);
        assert(s@ =~= object_text(fv));
    }
    s
}

/// A field whose value is the JSON text of `value`.
fn text_field(key: &str, value: &str) -> (r: (String, String))
    ensures
        r.0@ == key@,
        r.1@ == json_text_of(value@),
{
    (key.to_owned(), json_string(value))
}

/// The request for `action` with the given payload fields.
pub fn action_request(action: &str, payload: &Vec<(String, String)>) -> (r: String)
    ensures
        r@ == request_text(action@, fields_view(payload@)),
{
    let mut top: Vec<(String, String)> = Vec::new();
    top.push(text_field("action", action));
    top.push(("payload".to_owned(), object(payload)));
    proof {
        assert(fields_view(top@) =~= seq![
            ("action"@, json_text_of(action@)),
            ("payload"@, object_text(fields_view(payload@))),
        ]);
    }
    object(&top)
}

/// Registration with a name, a password and an icon.
pub fn register_request(username: &str, password: &str, icon: &str) -> (r: String)
    ensures
        r@ == request_text(
            "register"@,
            seq![
                ("icon"@, json_text_of(icon@)),
                ("password"@, json_text_of(password@)),
                ("username"@, json_text_of(username@)),
            ],
        ),
{
    let mut p: Vec<(String, String)> = Vec::new();
    p.push(text_field("icon", icon));
    p.push(text_field("password", password));
    p.push(text_field("username", username));
    proof {
        assert(fields_view(p@) =~= seq![
            ("icon"@, json_text_of(icon@)),
            ("password"@, json_text_of(password@)),
            ("username"@, json_text_of(username@)),
        ]);
    }
    action_request("register", &p)
}

/// A request whose payload has two text fields, given in key order.
fn two_field_request(action: &str, k1: &str, v1: &str, k2: &str, v2: &str) -> (r: String)
    ensures
        r@ == request_text(action@, seq![(k1@, json_text_of(v1@)), (k2@, json_text_of(v2@))]),
{
    let mut p: Vec<(String, String)> = Vec::new();
    p.push(text_field(k1, v1));
    p.push(text_field(k2, v2));
    proof {
        assert(fields_view(p@) =~= seq![(k1@, json_text_of(v1@)), (k2@, json_text_of(v2@))]);
    }
    action_request(action, &p)
}

/// Login with a name and a password.
pub fn login_request(username: &str, password: &str) -> (r: String)
    ensures
        r@ == request_text(
            "login"@,
            seq![
                ("password"@, json_text_of(password@)),
                ("username"@, json_text_of(username@)),
            ],
        ),
{
    two_field_request("login", "password", password, "username", username)
}

/// A chat message from `sender_id`.
pub fn send_message_request(sender_id: &str, content: &str) -> (r: String)
    ensures
        r@ == request_text(
            "send_message"@,
            seq![
                ("content"@, json_text_of(content@)),
                ("sender_id"@, json_text_of(sender_id@)),
            ],
        ),
{
    two_field_request("send_message", "content", content, "sender_id", sender_id)
}

/// The latest `limit` messages.
pub fn get_messages_request(limit: usize) -> (r: String)
    ensures
        r@ == request_text("get_messages"@, seq![("limit"@, decimal(limit as nat))]),
{
    let mut p: Vec<(String, String)> = Vec::new();
    p.push(("limit".to_owned(), decimal_string(limit as u64)));
    proof {
        assert(fields_view(p@) =~= seq![("limit"@, decimal(limit as nat))]);
    }
    action_request("get_messages", &p)
}

/// An administrator bans a user, giving a reason.
pub fn ban_user_request(admin_id: &str, target_id: &str, reason: &str) -> (r: String)
    ensures
        r@ == request_text(
            "ban_user"@,
            seq![
                ("admin_id"@, json_text_of(admin_id@)),
                ("reason"@, json_text_of(reason@)),
                ("target_id"@, json_text_of(target_id@)),
            ],
        ),
{
    let mut p: Vec<(String, String)> = Vec::new();
    p.push(text_field("admin_id", admin_id));
    p.push(text_field("reason", reason));
    p.push(text_field("target_id", target_id));
    proof {
        assert(fields_view(p@) =~= seq![
            ("admin_id"@, json_text_of(admin_id@)),
            ("reason"@, json_text_of(reason@)),
            ("target_id"@, json_text_of(target_id@)),
        ]);
    }
    action_request("ban_user", &p)
}

/// An administrator lifts a ban.
pub fn unban_user_request(admin_id: &str, target_id: &str) -> (r: String)
    ensures
        r@ == request_text(
            "unban_user"@,
            seq![
                ("admin_id"@, json_text_of(admin_id@)),
                ("target_id"@, json_text_of(target_id@)),
            ],
        ),
{
    two_field_request("unban_user", "admin_id", admin_id, "target_id", target_id)
}

/// An administrator promotes a user.
pub fn promote_user_request(admin_id: &str, target_id: &str) -> (r: String)
    ensures
        r@ == request_text(
            "promote_user"@,
            seq![
                ("admin_id"@, json_text_of(admin_id@)),
                ("target_id"@, json_text_of(target_id@)),
            ],
        ),
{
    two_field_request("promote_user", "admin_id", admin_id, "target_id", target_id)
}

/// A user takes a new name.
pub fn change_username_request(user_id: &str, new_username: &str) -> (r: String)
    ensures
        r@ == request_text(
            "change_username"@,
            seq![
                ("new_username"@, json_text_of(new_username@)),
                ("user_id"@, json_text_of(user_id@)),
            ],
        ),
{
    two_field_request("change_username", "new_username", new_username, "user_id", user_id)
}

/// A user takes a new icon.
pub fn change_icon_request(user_id: &str, new_icon: &str) -> (r: String)
    ensures
        r@ == request_text(
            "change_icon"@,
            seq![
                ("new_icon"@, json_text_of(new_icon@)),
                ("user_id"@, json_text_of(user_id@)),
            ],
        ),
{
    two_field_request("change_icon", "new_icon", new_icon, "user_id", user_id)
}

/// What a reply says: its `success` flag where that is a boolean, and its
/// `error` where that is a string.
#[derive(Clone, Debug)]
pub struct ServerReply {
    pub success: Option<bool>,
    pub error: Option<String>,
}

/// The text to show for a reply: a fixed word on success, else the error
/// text if the reply has one.
pub fn server_response_message(resp: &ServerReply) -> (r: Option<String>)
    ensures
        resp.success == Some(true) ==> (r matches Some(s) && s@ == "successful    "@),
        resp.success != Some(true) ==> r == resp.error,
{
    if resp.success == Some(true) {
        Some("successful    ".to_owned())
    } else {
        resp.error.clone()
    }
}

} // verus!
