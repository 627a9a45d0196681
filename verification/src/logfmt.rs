//! The undo log's line format.
//!
//! Each completed action is persisted as one self-describing line:
//! `{"src":"...","dest":"...","action":"move"}`. The crate both writes
//! and reads this format itself; quotes, backslashes and the control
//! characters that would break line framing are escaped in the two path
//! fields. Parsing accepts exactly what encoding emits, and the
//! round trip is proved: parsing an encoded record gives the record
//! back.

use vstd::prelude::*;
use vstd::string::StrSliceExecFns;

use crate::transform_list::Action;
use crate::transform_list::ItemModel;
use crate::transform_list::TransformListItem;

verus! {

/// Whether a character must be escaped inside a quoted field.
pub open spec fn needs_esc(c: char) -> bool {
    c == '"' || c == '\\' || c == '\n' || c == '\r' || c == '\t'
}

/// The character standing after the backslash in an escape pair.
pub open spec fn esc_code(c: char) -> char {
    if c == '"' {
        '"'
    } else if c == '\\' {
        '\\'
    } else if c == '\n' {
        'n'
    } else if c == '\r' {
        'r'
    } else {
        't'
    }
}

/// The character an escape pair stands for, if the code is a valid one.
pub open spec fn unesc_code(e: char) -> Option<char> {
    if e == '"' {
        Option::Some('"')
    } else if e == '\\' {
        Option::Some('\\')
    } else if e == 'n' {
        Option::Some('\n')
    } else if e == 'r' {
        Option::Some('\r')
    } else if e == 't' {
        Option::Some('\t')
    } else {
        Option::None
    }
}

/// One character, escaped as the quoted field carries it.
pub open spec fn esc_char(c: char) -> Seq<char> {
    if needs_esc(c) {
        seq!['\\', esc_code(c)]
    } else {
        seq![c]
    }
}

/// A whole string, escaped as the quoted field carries it.
pub open spec fn esc(s: Seq<char>) -> Seq<char>
    decreases s.len(),
{
    if s.len() == 0 {
        Seq::empty()
    } else {
        esc_char(s[0]) + esc(s.skip(1))
    }
}

/// Read a quoted field's content up to its closing quote: the decoded
/// content and what follows the quote, or nothing if the text ends
/// before the quote or holds an unknown escape pair.
pub open spec fn unesc(s: Seq<char>) -> Option<(Seq<char>, Seq<char>)>
    decreases s.len(),
{
    if s.len() == 0 {
        Option::None
    } else if s[0] == '"' {
        Option::Some((Seq::empty(), s.skip(1)))
    } else if s[0] == '\\' {
        if s.len() < 2 {
            Option::None
        } else {
            match unesc_code(s[1]) {
                Option::Some(m) => match unesc(s.skip(2)) {
                    Option::Some(p) => Option::Some((seq![m] + p.0, p.1)),
                    Option::None => Option::None,
                },
                Option::None => Option::None,
            }
        }
    } else {
        match unesc(s.skip(1)) {
            Option::Some(p) => Option::Some((seq![s[0]] + p.0, p.1)),
            Option::None => Option::None,
        }
    }
}

/// The action tag as the record carries it.
pub open spec fn action_name(a: Action) -> Seq<char> {
    match a {
        Action::Move => "move"@,
        Action::Copy => "copy"@,
    }
}

/// The log line a record is persisted as (without the line break).
pub open spec fn encode_model(m: ItemModel) -> Seq<char> {
    "{\"src\":\""@ + esc(m.src) + "\""@ + ",\"dest\":\""@ + esc(m.dest) + "\""@
        + ",\"action\":\""@ + action_name(m.action) + "\"}"@
}

/// The record a log line stands for, if it is well formed.
pub open spec fn parse_model(s: Seq<char>) -> Option<ItemModel> {
    let p1 = "{\"src\":\""@;
    if !p1.is_prefix_of(s) {
        Option::None
    } else {
        match unesc(s.skip(p1.len() as int)) {
            Option::None => Option::None,
            Option::Some((src, r1)) => {
                let p2 = ",\"dest\":\""@;
                if !p2.is_prefix_of(r1) {
                    Option::None
                } else {
                    match unesc(r1.skip(p2.len() as int)) {
                        Option::None => Option::None,
                        Option::Some((dest, r2)) => {
                            let p3 = ",\"action\":\""@;
                            if !p3.is_prefix_of(r2) {
                                Option::None
                            } else {
                                let r3 = r2.skip(p3.len() as int);
                                if r3 == "move\"}"@ {
                                    Option::Some(ItemModel { src, dest, action: Action::Move })
                                } else if r3 == "copy\"}"@ {
                                    Option::Some(ItemModel { src, dest, action: Action::Copy })
                                } else {
                                    Option::None
                                }
                            }
                        },
                    }
                }
            },
        }
    }
}

/// Relies on `String`'s collection of an iterator of characters: the
/// result holds exactly the characters handed to it, in order.
#[verifier::external_body]
pub(crate) fn chars_to_string(v: &Vec<char>) -> (r: String)
    ensures
        r@ == v@,
{
    v.iter().collect()
}

fn escape_string(s: &String) -> (r: String)
    ensures
        r@ == esc(s@),
{
    let n = s.as_str().unicode_len();
    let mut out: Vec<char> = Vec::new();
    let mut i: usize = 0;
    proof {
        assert(s@.skip(0) =~= s@);
    }
    while i < n
        invariant
            i <= n,
            n == s@.len(),
            esc(s@) == out@ + esc(s@.skip(i as int)),
        decreases n - i,
    {
        let ghost out_before = out@;
        let c = s.as_str().get_char(i);
        proof {
            assert(s@.skip(i as int)[0] == s@[i as int]);
            assert(s@.skip(i as int).skip(1) =~= s@.skip(i as int + 1));
        }
        if c == '"' {
            out.push('\\');
            out.push('"');
        } else if c == '\\' {
            out.push('\\');
            out.push('\\');
        } else if c == '\n' {
            out.push('\\');
            out.push('n');
        } else if c == '\r' {
            out.push('\\');
            out.push('r');
        } else if c == '\t' {
            out.push('\\');
            out.push('t');
        } else {
            out.push(c);
        }
        proof {
            assert(out@ =~= out_before + esc_char(c));
            assert(esc(s@) =~= out@ + esc(s@.skip(i as int + 1)));
        }
        i = i + 1;
    }
    proof {
        assert(esc(s@.skip(i as int)) =~= Seq::<char>::empty());
        assert(out@ =~= esc(s@));
    }
    chars_to_string(&out)
}

/// Persist one record as its log line (without the line break).
pub fn encode_record(item: &TransformListItem) -> (r: String)
    ensures
        r@ == encode_model(item@),
{
    let mut s = String::new();
    s.append("{\"src\":\"");
    let esrc = escape_string(&item.src);
    s.append(esrc.as_str());
    s.append("\"");
    s.append(",\"dest\":\"");
    let edest = escape_string(&item.dest);
    s.append(edest.as_str());
    s.append("\"");
    s.append(",\"action\":\"");
    match item.action {
        Action::Move => s.append("move"),
        Action::Copy => s.append("copy"),
    }
    s.append("\"}");
    proof {
        assert(s@ =~= encode_model(item@));
    }
    s
}

fn starts_with_at(s: &str, i: usize, lit: &str) -> (r: bool)
    requires
        i <= s@.len(),
    ensures
        r == lit@.is_prefix_of(s@.skip(i as int)),
{
    let ln = lit.unicode_len();
    let sn = s.unicode_len();
    if sn - i < ln {
        return false;
    }
    let mut k: usize = 0;
    while k < ln
        invariant
            k <= ln,
            ln == lit@.len(),
            sn == s@.len(),
            i + ln <= sn,
            forall|m: int| 0 <= m < k ==> lit@[m] == s@[i + m],
        decreases ln - k,
    {
        if lit.get_char(k) != s.get_char(i + k) {
            proof {
                assert(!lit@.is_prefix_of(s@.skip(i as int))) by {
                    assert(s@.skip(i as int)[k as int] == s@[i + k]);
                }
            }
            return false;
        }
        k = k + 1;
    }
    proof {
        assert(lit@ =~= s@.skip(i as int).subrange(0, lit@.len() as int));
    }
    true
}

fn unesc_at(s: &str, i: usize) -> (r: Option<(Vec<char>, usize)>)
    requires
        i <= s@.len(),
    ensures
        match r {
            Option::Some(p) => {
                &&& i <= p.1 <= s@.len()
                &&& unesc(s@.skip(i as int)) == Option::Some((p.0@, s@.skip(p.1 as int)))
            },
            Option::None => unesc(s@.skip(i as int)) is None,
        },
    decreases s@.len() - i,
{
    let n = s.unicode_len();
    if i == n {
        return Option::None;
    }
    let c = s.get_char(i);
    proof {
        assert(s@.skip(i as int)[0] == s@[i as int]);
        assert(s@.skip(i as int).skip(1) =~= s@.skip(i as int + 1));
    }
    if c == '"' {
        Option::Some((Vec::new(), i + 1))
    } else if c == '\\' {
        if i + 1 == n {
            return Option::None;
        }
        let e = s.get_char(i + 1);
        proof {
            assert(s@.skip(i as int)[1] == s@[i as int + 1]);
            assert(s@.skip(i as int).skip(2) =~= s@.skip(i as int + 2));
        }
        let m: char;
        if e == '"' {
            m = '"';
        } else if e == '\\' {
            m = '\\';
        } else if e == 'n' {
            m = '\n';
        } else if e == 'r' {
            m = '\r';
        } else if e == 't' {
            m = '\t';
        } else {
            return Option::None;
        }
        match unesc_at(s, i + 2) {
            Option::None => Option::None,
            Option::Some((b, j)) => {
                let ghost b_before = b@;
                let mut b = b;
                b.insert(0, m);
                proof {
                    assert(b@ =~= seq![m] + b_before);
                }
                Option::Some((b, j))
            },
        }
    } else {
        match unesc_at(s, i + 1) {
            Option::None => Option::None,
            Option::Some((b, j)) => {
                let ghost b_before = b@;
                let mut b = b;
                b.insert(0, c);
                proof {
                    assert(b@ =~= seq![c] + b_before);
                }
                Option::Some((b, j))
            },
        }
    }
}

/// Read one log line (without its line break) back into a record, or
/// nothing if the line is not a well-formed record.
pub fn parse_record(line: &str) -> (r: Option<TransformListItem>)
    ensures
        match r {
            Option::Some(it) => parse_model(line@) == Option::Some(it@),
            Option::None => parse_model(line@) is None,
        },
{
    let n = line.unicode_len();
    proof {
        assert(line@.skip(0) =~= line@);
    }
    if !starts_with_at(line, 0, "{\"src\":\"") {
        return Option::None;
    }
    let l1 = "{\"src\":\"".unicode_len();
    let src_parse = unesc_at(line, l1);
    let (srcv, j1) = match src_parse {
        Option::None => {
            return Option::None;
        },
        Option::Some(p) => p,
    };
    if !starts_with_at(line, j1, ",\"dest\":\"") {
        return Option::None;
    }
    let l2 = ",\"dest\":\"".unicode_len();
    proof {
        assert(line@.skip(j1 as int).skip(l2 as int) =~= line@.skip(j1 as int + l2 as int));
    }
    let dest_parse = unesc_at(line, j1 + l2);
    let (destv, j2) = match dest_parse {
        Option::None => {
            return Option::None;
        },
        Option::Some(p) => p,
    };
    if !starts_with_at(line, j2, ",\"action\":\"") {
        return Option::None;
    }
    let l3 = ",\"action\":\"".unicode_len();
    proof {
        assert(line@.skip(j2 as int).skip(l3 as int) =~= line@.skip(j2 as int + l3 as int));
    }
    let j3 = j2 + l3;
    let action: Action;
    if starts_with_at(line, j3, "move\"}") && n - j3 == "move\"}".unicode_len() {
        action = Action::Move;
        proof {
            assert(line@.skip(j3 as int) =~= "move\"}"@);
        }
    } else if starts_with_at(line, j3, "copy\"}") && n - j3 == "copy\"}".unicode_len() {
        action = Action::Copy;
        proof {
            assert(line@.skip(j3 as int) =~= "copy\"}"@);
            assert("move\"}"@ != "copy\"}"@) by {
                reveal_strlit("copy\"}");
                reveal_strlit("move\"}");
                assert("copy\"}"@.index(0) == 'c');
                assert("move\"}"@.index(0) == 'm');
            }
            assert(line@.skip(j3 as int) != "move\"}"@);
        }
    } else {
        proof {
            let r3 = line@.skip(j3 as int);
            assert(r3 != "move\"}"@ && r3 != "copy\"}"@) by {
                reveal_strlit("copy\"}");
                reveal_strlit("move\"}");
                if r3 == "move\"}"@ {
                    assert("move\"}"@.is_prefix_of(r3));
                }
                if r3 == "copy\"}"@ {
                    assert("copy\"}"@.is_prefix_of(r3));
                }
            }
        }
        return Option::None;
    }
    let src = chars_to_string(&srcv);
    let dest = chars_to_string(&destv);
    Option::Some(TransformListItem { src, dest, action })
}

proof fn lemma_unesc_esc(s: Seq<char>, rest: Seq<char>)
    ensures
        unesc(esc(s) + seq!['"'] + rest) == Option::Some((s, rest)),
    decreases s.len(),
{
    let t = esc(s) + seq!['"'] + rest;
    if s.len() == 0 {
        assert(t =~= seq!['"'] + rest);
        assert(t.skip(1) =~= rest);
        assert(s =~= Seq::<char>::empty());
    } else {
        let c = s[0];
        lemma_unesc_esc(s.skip(1), rest);
        if needs_esc(c) {
            assert(t =~= seq!['\\', esc_code(c)] + (esc(s.skip(1)) + seq!['"'] + rest));
            assert(t.skip(2) =~= esc(s.skip(1)) + seq!['"'] + rest);
            assert(unesc_code(esc_code(c)) == Option::Some(c));
            assert(seq![c] + s.skip(1) =~= s);
        } else {
            assert(t =~= seq![c] + (esc(s.skip(1)) + seq!['"'] + rest));
            assert(t.skip(1) =~= esc(s.skip(1)) + seq!['"'] + rest);
            assert(seq![c] + s.skip(1) =~= s);
        }
    }
}

/// Law: the log format round-trips. Parsing the line a record was
/// encoded as gives back exactly that record, whatever its paths hold.
pub proof fn lemma_parse_encode(m: ItemModel)
    ensures
        parse_model(encode_model(m)) == Option::Some(m),
{
    let s = encode_model(m);
    let p1 = "{\"src\":\""@;
    let p2 = ",\"dest\":\""@;
    let p3 = ",\"action\":\""@;
    reveal_strlit("\"");
    let tail1 = p2 + esc(m.dest) + "\""@ + p3 + action_name(m.action) + "\"}"@;
    assert(s =~= p1 + (esc(m.src) + seq!['"'] + tail1));
    assert(s.subrange(0, p1.len() as int) =~= p1);
    assert(s.skip(p1.len() as int) =~= esc(m.src) + seq!['"'] + tail1);
    lemma_unesc_esc(m.src, tail1);
    let tail2 = p3 + action_name(m.action) + "\"}"@;
    assert(tail1.subrange(0, p2.len() as int) =~= p2);
    assert(tail1.skip(p2.len() as int) =~= esc(m.dest) + seq!['"'] + tail2);
    lemma_unesc_esc(m.dest, tail2);
    assert(tail2.subrange(0, p3.len() as int) =~= p3);
    let r3 = tail2.skip(p3.len() as int);
    reveal_strlit("move");
    reveal_strlit("copy");
    reveal_strlit("move\"}");
    reveal_strlit("copy\"}");
    reveal_strlit("\"}");
    match m.action {
        Action::Move => {
            assert(r3 =~= "move\"}"@);
        },
        Action::Copy => {
            assert(r3 =~= "copy\"}"@);
            assert("copy\"}"@.index(0) == 'c');
            assert("move\"}"@.index(0) == 'm');
            assert(r3 != "move\"}"@);
        },
    }
}

} // verus!
