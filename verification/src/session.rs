//! The session record: one user's authentication material.
//!
//! `PbinfoUser` carries the credentials the caller supplied and the
//! site-issued tokens (session cookie, form token, user id). Before the first
//! successful login the cookie and the form token hold locally generated
//! placeholder values of fixed length and character set, so that the first
//! identity probe and login submission are well-formed requests.

use vstd::prelude::*;

verus! {

/// Errors of the configuration persistence flow. The I/O itself happens
/// outside the library; the variants carry the failure as plain text.
#[derive(Debug)]
pub enum PbinfoUserError {
    NoHomeDirError,
    ReadConfigError { error: String },
    WriteError { file: String, error: String },
    TomlParseError { error: String },
}

/// The abstract value of a session record: the five fields as character
/// sequences.
pub ghost struct SessionView {
    pub email: Seq<char>,
    pub password: Seq<char>,
    pub ssid: Seq<char>,
    pub form_token: Seq<char>,
    pub user_id: Seq<char>,
}

/// One user's session material. All five fields are always present;
/// `user_id` equal to `""` or `"0"` is the sole mark of an
/// unauthenticated session.
#[derive(Debug)]
pub struct PbinfoUser {
    pub email: String,
    pub password: String,
    pub ssid: String,
    pub form_token: String,
    pub user_id: String,
}

impl View for PbinfoUser {
    type V = SessionView;

    open spec fn view(&self) -> SessionView {
        SessionView {
            email: self.email@,
            password: self.password@,
            ssid: self.ssid@,
            form_token: self.form_token@,
            user_id: self.user_id@,
        }
    }
}

/// A lowercase hexadecimal digit, as the placeholder form token uses.
pub open spec fn is_lower_hex_char(c: char) -> bool {
    ('0' <= c && c <= '9') || ('a' <= c && c <= 'f')
}

/// A lowercase base-36 digit, as the placeholder session cookie uses.
pub open spec fn is_base36_char(c: char) -> bool {
    ('0' <= c && c <= '9') || ('a' <= c && c <= 'z')
}

/// The character standing for digit value `i` in base 36: `0`-`9` then
/// `a`-`z`.
pub open spec fn spec_base36_char(i: int) -> char {
    if i == 0 { '0' } else if i == 1 { '1' } else if i == 2 { '2' }
    else if i == 3 { '3' } else if i == 4 { '4' } else if i == 5 { '5' }
    else if i == 6 { '6' } else if i == 7 { '7' } else if i == 8 { '8' }
    else if i == 9 { '9' } else if i == 10 { 'a' } else if i == 11 { 'b' }
    else if i == 12 { 'c' } else if i == 13 { 'd' } else if i == 14 { 'e' }
    else if i == 15 { 'f' } else if i == 16 { 'g' } else if i == 17 { 'h' }
    else if i == 18 { 'i' } else if i == 19 { 'j' } else if i == 20 { 'k' }
    else if i == 21 { 'l' } else if i == 22 { 'm' } else if i == 23 { 'n' }
    else if i == 24 { 'o' } else if i == 25 { 'p' } else if i == 26 { 'q' }
    else if i == 27 { 'r' } else if i == 28 { 's' } else if i == 29 { 't' }
    else if i == 30 { 'u' } else if i == 31 { 'v' } else if i == 32 { 'w' }
    else if i == 33 { 'x' } else if i == 34 { 'y' } else { 'z' }
}

/// Relies on `rand::random`: draws one uniformly random `u32`. Nothing is
/// promised of the value.
#[verifier::external_body]
fn random_u32() -> u32 {
    rand::random()
}

/// Relies on `String::push`: appends one character to the string.
#[verifier::external_body]
pub(crate) fn push_char(s: &mut String, c: char)
    ensures
        final(s)@ == old(s)@.push(c),
{
    s.push(c);
}

/// Maps a digit value below 36 to its base-36 character.
pub(crate) fn exec_base36_char(i: u32) -> (c: char)
    requires
        i < 36,
    ensures
        c == spec_base36_char(i as int),
{
    match i {
        0 => '0', 1 => '1', 2 => '2', 3 => '3', 4 => '4', 5 => '5',
        6 => '6', 7 => '7', 8 => '8', 9 => '9', 10 => 'a', 11 => 'b',
        12 => 'c', 13 => 'd', 14 => 'e', 15 => 'f', 16 => 'g', 17 => 'h',
        18 => 'i', 19 => 'j', 20 => 'k', 21 => 'l', 22 => 'm', 23 => 'n',
        24 => 'o', 25 => 'p', 26 => 'q', 27 => 'r', 28 => 's', 29 => 't',
        30 => 'u', 31 => 'v', 32 => 'w', 33 => 'x', 34 => 'y', _ => 'z',
    }
}

proof fn lemma_base36_char_in_range(i: int)
    requires
        0 <= i < 36,
    ensures
        is_base36_char(spec_base36_char(i)),
        i < 16 ==> is_lower_hex_char(spec_base36_char(i)),
{
}

/// A placeholder form token: 40 random lowercase hexadecimal characters.
fn make_random_form_token() -> (r: String)
    ensures
        r@.len() == 40,
        forall|i: int| 0 <= i < r@.len() ==> is_lower_hex_char(#[trigger] r@[i]),
{
    let mut s = String::new();
    let mut k: usize = 0;
    while k < 40
        invariant
            k <= 40,
            s@.len() == k,
            forall|i: int| 0 <= i < s@.len() ==> is_lower_hex_char(#[trigger] s@[i]),
        decreases 40 - k,
    {
        let d = random_u32() % 16;
        let c = exec_base36_char(d);
        proof {
            lemma_base36_char_in_range(d as int);
        }
        push_char(&mut s, c);
        k = k + 1;
    }
    s
}

/// A placeholder session cookie: 26 random lowercase base-36 characters.
fn make_random_form_ssid() -> (r: String)
    ensures
        r@.len() == 26,
        forall|i: int| 0 <= i < r@.len() ==> is_base36_char(#[trigger] r@[i]),
{
    let mut s = String::new();
    let mut k: usize = 0;
    while k < 26
        invariant
            k <= 26,
            s@.len() == k,
            forall|i: int| 0 <= i < s@.len() ==> is_base36_char(#[trigger] s@[i]),
        decreases 26 - k,
    {
        let d = random_u32() % 36;
        let c = exec_base36_char(d);
        proof {
            lemma_base36_char_in_range(d as int);
        }
        push_char(&mut s, c);
        k = k + 1;
    }
    s
}

impl PbinfoUser {
    /// A fresh session for the given credentials: empty user id, placeholder
    /// cookie and form token of the documented lengths and character sets.
    pub fn new(email: String, password: String) -> (r: PbinfoUser)
        ensures
            r.email == email,
            r.password == password,
            r.user_id@.len() == 0,
            r.ssid@.len() == 26,
            forall|i: int| 0 <= i < r.ssid@.len() ==> is_base36_char(#[trigger] r.ssid@[i]),
            r.form_token@.len() == 40,
            forall|i: int|
                0 <= i < r.form_token@.len() ==> is_lower_hex_char(#[trigger] r.form_token@[i]),
    {
        PbinfoUser {
            email: email,
            password: password,
            ssid: make_random_form_ssid(),
            form_token: make_random_form_token(),
            user_id: String::new(),
        }
    }

    pub fn get_email(&self) -> (r: &str)
        ensures
            r@ == self.email@,
    {
        self.email.as_str()
    }

    pub fn get_password(&self) -> (r: &str)
        ensures
            r@ == self.password@,
    {
        self.password.as_str()
    }

    pub fn get_mut_email(&mut self) -> (r: &mut String)
        ensures
            *r == old(self).email,
            final(self).email == *final(r),
            final(self).password == old(self).password,
            final(self).ssid == old(self).ssid,
            final(self).form_token == old(self).form_token,
            final(self).user_id == old(self).user_id,
    {
        &mut self.email
    }

    pub fn get_mut_password(&mut self) -> (r: &mut String)
        ensures
            *r == old(self).password,
            final(self).password == *final(r),
            final(self).email == old(self).email,
            final(self).ssid == old(self).ssid,
            final(self).form_token == old(self).form_token,
            final(self).user_id == old(self).user_id,
    {
        &mut self.password
    }
}

} // verus!
