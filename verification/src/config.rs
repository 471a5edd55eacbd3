//! The session's on-disk configuration format.
//!
//! A saved session is five `key = "value"` lines, one per field, in a fixed
//! order, with the values written as basic strings: quote, backslash,
//! newline, carriage return, tab, backspace and form feed are escaped with
//! a backslash, everything else stands as itself. `render_config` writes a
//! session in this form and `parse_config` reads it back; a rendered
//! session always parses back to the same five fields. Reading and writing
//! the file itself is the caller's business.

use vstd::prelude::*;
use vstd::string::StrSliceExecFns;
use vstd::string::StringExecFns;
use crate::session::push_char;
use crate::session::PbinfoUser;
use crate::session::PbinfoUserError;
use crate::session::SessionView;

verus! {

/// How one character is written inside a quoted value.
pub open spec fn esc_char(c: char) -> Seq<char> {
    if c == '"' {
        seq!['\\', '"']
    } else if c == '\\' {
        seq!['\\', '\\']
    } else if c == '\n' {
        seq!['\\', 'n']
    } else if c == '\r' {
        seq!['\\', 'r']
    } else if c == '\t' {
        seq!['\\', 't']
    } else if c == '\u{8}' {
        seq!['\\', 'b']
    } else if c == '\u{c}' {
        seq!['\\', 'f']
    } else {
        seq![c]
    }
}

/// How a whole value is written inside its quotes.
pub open spec fn esc(s: Seq<char>) -> Seq<char>
    decreases s.len()
{
    if s.len() == 0 {
        Seq::empty()
    } else {
        esc_char(s[0]) + esc(s.drop_first())
    }
}

proof fn lemma_esc_snoc(p: Seq<char>, c: char)
    ensures
        esc(p.push(c)) == esc(p) + esc_char(c),
    decreases p.len(),
{
    let q = p.push(c);
    assert(q.len() == p.len() + 1);
    if p.len() == 0 {
        assert(q[0] == c);
        assert(q.drop_first() =~= Seq::<char>::empty());
        assert(esc(q) == esc_char(c) + esc(q.drop_first()));
        assert(esc(Seq::<char>::empty()) == Seq::<char>::empty());
        assert(esc(q) =~= esc(p) + esc_char(c));
    } else {
        assert(q[0] == p[0]);
        assert(q.drop_first() =~= p.drop_first().push(c));
        lemma_esc_snoc(p.drop_first(), c);
        assert(esc(q) == esc_char(q[0]) + esc(q.drop_first()));
        assert(esc(q.drop_first()) == esc(p.drop_first()) + esc_char(c));
        assert(esc(p) == esc_char(p[0]) + esc(p.drop_first()));
        assert(esc(q) =~= esc(p) + esc_char(c));
    }
}

/// Writes a value as it stands inside its quotes.
fn esc_exec(s: &str) -> (r: String)
    ensures
        r@ == esc(s@),
{
    let n = s.unicode_len();
    let mut out = String::new();
    let mut i: usize = 0;
    proof {
        assert(s@.subrange(0, 0) =~= Seq::<char>::empty());
    }
    while i < n
        invariant
            i <= n,
            n == s@.len(),
            out@ == esc(s@.subrange(0, i as int)),
        decreases n - i,
    {
        let c = s.get_char(i);
        if c == '"' {
            push_char(&mut out, '\\');
            push_char(&mut out, '"');
        } else if c == '\\' {
            push_char(&mut out, '\\');
            push_char(&mut out, '\\');
        } else if c == '\n' {
            push_char(&mut out, '\\');
            push_char(&mut out, 'n');
        } else if c == '\r' {
            push_char(&mut out, '\\');
            push_char(&mut out, 'r');
        } else if c == '\t' {
            push_char(&mut out, '\\');
            push_char(&mut out, 't');
        } else if c == '\u{8}' {
            push_char(&mut out, '\\');
            push_char(&mut out, 'b');
        } else if c == '\u{c}' {
            push_char(&mut out, '\\');
            push_char(&mut out, 'f');
        } else {
            push_char(&mut out, c);
        }
        proof {
            lemma_esc_snoc(s@.subrange(0, i as int), c);
            assert(s@.subrange(0, i + 1) =~= s@.subrange(0, i as int).push(c));
            assert(out@ =~= esc(s@.subrange(0, i as int)) + esc_char(c));
        }
        i = i + 1;
    }
    proof {
        assert(s@.subrange(0, n as int) =~= s@);
    }
    out
}

/// One rendered line: the key with ` = `, the quoted escaped value, a
/// newline.
pub open spec fn render_line(prefix: Seq<char>, v: Seq<char>) -> Seq<char> {
    prefix + esc(v) + "\"\n"@
}

/// A rendered session: the five lines in their fixed order.
pub open spec fn spec_render_config(v: SessionView) -> Seq<char> {
    render_line("email = \""@, v.email) + render_line("password = \""@, v.password)
        + render_line("ssid = \""@, v.ssid) + render_line("form_token = \""@, v.form_token)
        + render_line("user_id = \""@, v.user_id)
}

fn append_line(out: &mut String, prefix: &str, v: &str)
    ensures
        final(out)@ == old(out)@ + render_line(prefix@, v@),
{
    out.append(prefix);
    let e = esc_exec(v);
    out.append(e.as_str());
    out.append("\"\n");
    proof {
        assert(final(out)@ =~= old(out)@ + render_line(prefix@, v@));
    }
}

/// Writes a session in its on-disk form.
pub fn render_config(u: &PbinfoUser) -> (r: String)
    ensures
        r@ == spec_render_config(u@),
{
    let mut out = String::new();
    append_line(&mut out, "email = \"", u.email.as_str());
    append_line(&mut out, "password = \"", u.password.as_str());
    append_line(&mut out, "ssid = \"", u.ssid.as_str());
    append_line(&mut out, "form_token = \"", u.form_token.as_str());
    append_line(&mut out, "user_id = \"", u.user_id.as_str());
    proof {
        assert(out@ =~= spec_render_config(u@));
    }
    out
}

/// The literal stands in `s` at position `i`.
pub open spec fn expect_lit(s: Seq<char>, i: int, lit: Seq<char>) -> Option<int> {
    if 0 <= i && i + lit.len() <= s.len() && s.subrange(i, i + lit.len()) == lit {
        Some(i + lit.len())
    } else {
        None
    }
}

/// Reads a quoted value from position `i` to its closing quote: an escape
/// pair decodes to the escaped character, a raw newline or carriage return
/// ends the line early and fails, any other raw character stands as itself.
/// Yields the value and the position after the closing quote.
pub open spec fn parse_string_body(s: Seq<char>, i: int) -> Option<(Seq<char>, int)>
    decreases s.len() - i
{
    if i < 0 || i >= s.len() {
        None
    } else if s[i] == '"' {
        Some((Seq::empty(), i + 1))
    } else if s[i] == '\n' || s[i] == '\r' {
        None
    } else if s[i] == '\\' {
        if i + 1 >= s.len() {
            None
        } else {
            let e = s[i + 1];
            if e == '"' || e == '\\' || e == 'n' || e == 'r' || e == 't' || e == 'b' || e == 'f' {
                let c = if e == '"' {
                    '"'
                } else if e == '\\' {
                    '\\'
                } else if e == 'n' {
                    '\n'
                } else if e == 'r' {
                    '\r'
                } else if e == 't' {
                    '\t'
                } else if e == 'b' {
                    '\u{8}'
                } else {
                    '\u{c}'
                };
                match parse_string_body(s, i + 2) {
                    None => None,
                    Some((rest, j)) => Some((seq![c] + rest, j)),
                }
            } else {
                None
            }
        }
    } else {
        match parse_string_body(s, i + 1) {
            None => None,
            Some((rest, j)) => Some((seq![s[i]] + rest, j)),
        }
    }
}

/// Reads one line: the key prefix, the quoted value, the newline. Yields
/// the value and the position after the newline.
pub open spec fn parse_one(s: Seq<char>, i: int, prefix: Seq<char>) -> Option<(Seq<char>, int)> {
    match expect_lit(s, i, prefix) {
        None => None,
        Some(j) => match parse_string_body(s, j) {
            None => None,
            Some((v, k)) => if k < s.len() && s[k] == '\n' {
                Some((v, k + 1))
            } else {
                None
            },
        },
    }
}

/// What a configuration text denotes: the five fields, read in their fixed
/// order, with nothing after the last line.
pub open spec fn spec_parse_config(s: Seq<char>) -> Option<SessionView> {
    match parse_one(s, 0, "email = \""@) {
        None => None,
        Some((email, i1)) => match parse_one(s, i1, "password = \""@) {
            None => None,
            Some((password, i2)) => match parse_one(s, i2, "ssid = \""@) {
                None => None,
                Some((ssid, i3)) => match parse_one(s, i3, "form_token = \""@) {
                    None => None,
                    Some((form_token, i4)) => match parse_one(s, i4, "user_id = \""@) {
                        None => None,
                        Some((user_id, i5)) => if i5 == s.len() {
                            Some(SessionView { email, password, ssid, form_token, user_id })
                        } else {
                            None
                        },
                    },
                },
            },
        },
    }
}

/// Checks that the literal stands at position `i`.
fn expect_prefix(s: &str, i: usize, lit: &str) -> (r: Option<usize>)
    requires
        i <= s@.len(),
    ensures
        match r {
            Some(j) => expect_lit(s@, i as int, lit@) == Some(j as int),
            None => expect_lit(s@, i as int, lit@) is None,
        },
{
    let n = s.unicode_len();
    let m = lit.unicode_len();
    if m > n - i {
        return None;
    }
    let mut k: usize = 0;
    while k < m
        invariant
            k <= m,
            i + m <= n,
            n == s@.len(),
            m == lit@.len(),
            forall|t: int| 0 <= t < k ==> s@[i + t] == lit@[t],
        decreases m - k,
    {
        if s.get_char(i + k) != lit.get_char(k) {
            proof {
                assert(s@.subrange(i as int, i + lit@.len()) != lit@) by {
                    if s@.subrange(i as int, i + lit@.len()) == lit@ {
                        assert(s@.subrange(i as int, i + lit@.len())[k as int] == lit@[k as int]);
                    }
                }
            }
            return None;
        }
        k = k + 1;
    }
    proof {
        assert(s@.subrange(i as int, i + lit@.len()) =~= lit@);
    }
    Some(i + m)
}

/// Reads a quoted value from position `i` through its closing quote.
fn parse_body_exec(s: &str, i: usize) -> (r: Option<(String, usize)>)
    requires
        i <= s@.len(),
    ensures
        match r {
            Some(p) => parse_string_body(s@, i as int) == Some((p.0@, p.1 as int)),
            None => parse_string_body(s@, i as int) is None,
        },
{
    let n = s.unicode_len();
    let mut acc = String::new();
    let mut cur = i;
    loop
        invariant
            i <= cur <= n,
            n == s@.len(),
            match parse_string_body(s@, cur as int) {
                None => parse_string_body(s@, i as int) is None,
                Some((rest, j)) => parse_string_body(s@, i as int) == Some((acc@ + rest, j)),
            },
        decreases n - cur,
    {
        if cur >= n {
            return None;
        }
        let c = s.get_char(cur);
        if c == '"' {
            proof {
                assert(acc@ + Seq::<char>::empty() =~= acc@);
            }
            return Some((acc, cur + 1));
        }
        if c == '\n' || c == '\r' {
            return None;
        }
        if c == '\\' {
            if cur + 1 >= n {
                return None;
            }
            let e = s.get_char(cur + 1);
            let d: char = if e == '"' {
                '"'
            } else if e == '\\' {
                '\\'
            } else if e == 'n' {
                '\n'
            } else if e == 'r' {
                '\r'
            } else if e == 't' {
                '\t'
            } else if e == 'b' {
                '\u{8}'
            } else if e == 'f' {
                '\u{c}'
            } else {
                return None;
            };
            let ghost acc_before = acc@;
            push_char(&mut acc, d);
            proof {
                if let Some((rest, j)) = parse_string_body(s@, cur + 2) {
                    assert(acc@ + rest =~= acc_before + (seq![d] + rest));
                }
            }
            cur = cur + 2;
        } else {
            let ghost acc_before = acc@;
            push_char(&mut acc, c);
            proof {
                if let Some((rest, j)) = parse_string_body(s@, cur + 1) {
                    assert(acc@ + rest =~= acc_before + (seq![c] + rest));
                }
            }
            cur = cur + 1;
        }
    }
}

/// Reads one `key = "value"` line from position `i`.
fn parse_one_exec(s: &str, i: usize, prefix: &str) -> (r: Option<(String, usize)>)
    requires
        i <= s@.len(),
    ensures
        match r {
            Some(p) => parse_one(s@, i as int, prefix@) == Some((p.0@, p.1 as int)),
            None => parse_one(s@, i as int, prefix@) is None,
        },
{
    let j = match expect_prefix(s, i, prefix) {
        None => {
            return None;
        },
        Some(j) => j,
    };
    let (v, k) = match parse_body_exec(s, j) {
        None => {
            return None;
        },
        Some(p) => p,
    };
    proof {
        lemma_parse_body_bounds(s@, j as int);
    }
    let n = s.unicode_len();
    if k < n && s.get_char(k) == '\n' {
        Some((v, k + 1))
    } else {
        None
    }
}

proof fn lemma_parse_body_bounds(s: Seq<char>, i: int)
    ensures
        parse_string_body(s, i) matches Some(p) ==> i < p.1 <= s.len(),
    decreases s.len() - i,
{
    if 0 <= i && i < s.len() {
        lemma_parse_body_bounds(s, i + 1);
        if i + 2 <= s.len() {
            lemma_parse_body_bounds(s, i + 2);
        }
    }
}

/// Reads a session back from its on-disk form. A text that does not carry
/// exactly the five lines in their fixed order is a parse failure.
pub fn parse_config(text: &str) -> (r: Result<PbinfoUser, PbinfoUserError>)
    ensures
        match r {
            Ok(u) => spec_parse_config(text@) == Some(u@),
            Err(e) => spec_parse_config(text@) is None && e matches
                PbinfoUserError::TomlParseError { .. },
        },
{
    let err_text = "config text does not hold the five expected key = \"value\" lines";
    let (email, i1) = match parse_one_exec(text, 0, "email = \"") {
        None => {
            return Err(PbinfoUserError::TomlParseError { error: err_text.to_owned() });
        },
        Some(p) => p,
    };
    proof {
        lemma_parse_one_bounds(text@, 0, "email = \""@);
    }
    let (password, i2) = match parse_one_exec(text, i1, "password = \"") {
        None => {
            return Err(PbinfoUserError::TomlParseError { error: err_text.to_owned() });
        },
        Some(p) => p,
    };
    proof {
        lemma_parse_one_bounds(text@, i1 as int, "password = \""@);
    }
    let (ssid, i3) = match parse_one_exec(text, i2, "ssid = \"") {
        None => {
            return Err(PbinfoUserError::TomlParseError { error: err_text.to_owned() });
        },
        Some(p) => p,
    };
    proof {
        lemma_parse_one_bounds(text@, i2 as int, "ssid = \""@);
    }
    let (form_token, i4) = match parse_one_exec(text, i3, "form_token = \"") {
        None => {
            return Err(PbinfoUserError::TomlParseError { error: err_text.to_owned() });
        },
        Some(p) => p,
    };
    proof {
        lemma_parse_one_bounds(text@, i3 as int, "form_token = \""@);
    }
    let (user_id, i5) = match parse_one_exec(text, i4, "user_id = \"") {
        None => {
            return Err(PbinfoUserError::TomlParseError { error: err_text.to_owned() });
        },
        Some(p) => p,
    };
    let n = text.unicode_len();
    if i5 == n {
        Ok(PbinfoUser { email, password, ssid, form_token, user_id })
    } else {
        Err(PbinfoUserError::TomlParseError { error: err_text.to_owned() })
    }
}

proof fn lemma_parse_one_bounds(s: Seq<char>, i: int, prefix: Seq<char>)
    ensures
        parse_one(s, i, prefix) matches Some(p) ==> 0 <= p.1 <= s.len(),
{
    match expect_lit(s, i, prefix) {
        Some(j) => lemma_parse_body_bounds(s, j),
        None => (),
    }
}

/// Parsing the escaped image of `v` starting at `i` yields `v` itself and
/// stops right after the closing quote.
proof fn lemma_parse_body_of_esc(s: Seq<char>, i: int, v: Seq<char>)
    requires
        0 <= i,
        i + esc(v).len() + 1 <= s.len(),
        s.subrange(i, i + esc(v).len()) == esc(v),
        s[i + esc(v).len()] == '"',
    ensures
        parse_string_body(s, i) == Some((v, i + esc(v).len() + 1)),
    decreases v.len(),
{
    if v.len() == 0 {
        assert(esc(v).len() == 0);
    } else {
        let c = v[0];
        let ec = esc_char(c);
        let rest = v.drop_first();
        assert(esc(v) == ec + esc(rest));
        assert forall|k: int| 0 <= k < esc(v).len() implies s[i + k] == esc(v)[k] by {
            assert(s.subrange(i, i + esc(v).len())[k] == esc(v)[k]);
        }
        assert(s.subrange(i + ec.len(), i + ec.len() + esc(rest).len()) =~= esc(rest)) by {
            assert forall|t: int| 0 <= t < esc(rest).len() implies s[i + ec.len() + t] == esc(
                rest,
            )[t] by {
                assert(s[i + (ec.len() + t)] == esc(v)[ec.len() + t]);
                assert(esc(v)[ec.len() + t] == esc(rest)[t]);
            }
        }
        assert(s[i + ec.len() + esc(rest).len()] == '"') by {
            assert(i + ec.len() + esc(rest).len() == i + esc(v).len());
        }
        lemma_parse_body_of_esc(s, i + ec.len(), rest);
        if ec.len() == 2 {
            assert(s[i + 0] == esc(v)[0]);
            assert(s[i + 1] == esc(v)[1]);
            assert(esc(v)[0] == ec[0]);
            assert(esc(v)[1] == ec[1]);
            assert(ec[0] == '\\');
            assert(seq![c] + rest =~= v);
        } else {
            assert(ec == seq![c]);
            assert(s[i + 0] == esc(v)[0]);
            assert(esc(v)[0] == ec[0]);
            assert(ec[0] == c);
            assert(c != '"' && c != '\\' && c != '\n' && c != '\r');
            assert(seq![c] + rest =~= v);
        }
    }
}

/// Parsing one rendered line at its own position yields the value written
/// into it and stops right after its newline.
proof fn lemma_parse_one_of_render(s: Seq<char>, i: int, prefix: Seq<char>, v: Seq<char>)
    requires
        0 <= i,
        i + render_line(prefix, v).len() <= s.len(),
        s.subrange(i, i + render_line(prefix, v).len()) == render_line(prefix, v),
    ensures
        parse_one(s, i, prefix) == Some((v, i + render_line(prefix, v).len())),
{
    let line = render_line(prefix, v);
    reveal_strlit("\"\n");
    assert(line.len() == prefix.len() + esc(v).len() + 2);
    assert forall|k: int| 0 <= k < line.len() implies s[i + k] == line[k] by {
        assert(s.subrange(i, i + line.len())[k] == line[k]);
    }
    assert(s.subrange(i, i + prefix.len()) =~= prefix) by {
        assert forall|t: int| 0 <= t < prefix.len() implies s[i + t] == prefix[t] by {
            assert(s[i + t] == line[t]);
            assert(line[t] == prefix[t]);
        }
    }
    assert(expect_lit(s, i, prefix) == Some(i + prefix.len()));
    let j = i + prefix.len();
    assert(s.subrange(j, j + esc(v).len()) =~= esc(v)) by {
        assert forall|t: int| 0 <= t < esc(v).len() implies s[j + t] == esc(v)[t] by {
            assert(s[i + (prefix.len() + t)] == line[prefix.len() + t]);
            assert(line[prefix.len() + t] == (esc(v) + "\"\n"@)[t]);
            assert((esc(v) + "\"\n"@)[t] == esc(v)[t]);
        }
    }
    assert(s[j + esc(v).len()] == '"') by {
        assert(s[i + (prefix.len() + esc(v).len())] == line[prefix.len() + esc(v).len() as int]);
        assert(line[prefix.len() + esc(v).len() as int] == (esc(v) + "\"\n"@)[esc(v).len() as int]);
        assert((esc(v) + "\"\n"@)[esc(v).len() as int] == "\"\n"@[0]);
    }
    assert(s[j + esc(v).len() + 1] == '\n') by {
        assert(s[i + (prefix.len() + esc(v).len() + 1)] == line[prefix.len() + esc(v).len()
            + 1int]);
        assert(line[prefix.len() + esc(v).len() + 1int] == (esc(v) + "\"\n"@)[esc(v).len() + 1int]);
        assert((esc(v) + "\"\n"@)[esc(v).len() + 1int] == "\"\n"@[1]);
    }
    lemma_parse_body_of_esc(s, j, v);
}

/// A rendered session parses back to the very same five fields: saving a
/// session and loading it again round-trips, whatever the fields hold.
pub proof fn lemma_config_round_trip(v: SessionView)
    ensures
        spec_parse_config(spec_render_config(v)) == Some(v),
{
    let s = spec_render_config(v);
    let l1 = render_line("email = \""@, v.email);
    let l2 = render_line("password = \""@, v.password);
    let l3 = render_line("ssid = \""@, v.ssid);
    let l4 = render_line("form_token = \""@, v.form_token);
    let l5 = render_line("user_id = \""@, v.user_id);
    assert(s == l1 + l2 + l3 + l4 + l5);
    let i1 = l1.len() as int;
    let i2 = i1 + l2.len();
    let i3 = i2 + l3.len();
    let i4 = i3 + l4.len();
    let i5 = i4 + l5.len();
    assert(s.len() == i5);
    assert(s.subrange(0, i1) =~= l1);
    assert(s.subrange(i1, i2) =~= l2);
    assert(s.subrange(i2, i3) =~= l3);
    assert(s.subrange(i3, i4) =~= l4);
    assert(s.subrange(i4, i5) =~= l5);
    lemma_parse_one_of_render(s, 0, "email = \""@, v.email);
    lemma_parse_one_of_render(s, i1, "password = \""@, v.password);
    lemma_parse_one_of_render(s, i2, "ssid = \""@, v.ssid);
    lemma_parse_one_of_render(s, i3, "form_token = \""@, v.form_token);
    lemma_parse_one_of_render(s, i4, "user_id = \""@, v.user_id);
}

} // verus!
