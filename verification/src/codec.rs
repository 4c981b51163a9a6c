//! The session record's wire form: a canonical JSON object holding the
//! model, the conversation and the sampling parameters.  The printer and
//! the parser are exact inverses, so a stored session is reproduced
//! without loss.
//!
//! The same record, with the streaming flag set, is the body of a
//! generation request.

use vstd::prelude::*;

use crate::json::{
    is_digit, lemma_parse_print_milli, lemma_parse_print_nat, lemma_parse_print_string,
    lemma_print_nat_digits, spec_match_lit, spec_parse_milli, spec_parse_nat, spec_parse_string,
    spec_print_milli, spec_print_nat, spec_print_string, parse_milli, parse_nat, parse_string_ex,
    print_milli, print_string_into, print_u64,
};
use crate::session::{Chat, ChatMessage, ChatView, MessageView, Role};
use crate::text::{chars_to_string, str_to_chars};

verus! {

// ---------------------------------------------------------------------------
// the printed form
// ---------------------------------------------------------------------------

/// The wire name of a role.
pub open spec fn spec_role_name(r: Role) -> Seq<char> {
    match r {
        Role::User => "user"@,
        Role::System => "system"@,
        Role::Assistant => "assistant"@,
    }
}

/// One message as printed.
pub open spec fn spec_print_message(m: MessageView) -> Seq<char> {
    "{\"role\":\""@ + spec_role_name(m.role) + "\",\"content\":"@ + spec_print_string(m.content)
        + "}"@
}

/// The messages, printed one after another with commas between.
pub open spec fn spec_print_items(ms: Seq<MessageView>) -> Seq<char>
    decreases ms.len(),
{
    if ms.len() == 0 {
        Seq::empty()
    } else if ms.len() == 1 {
        spec_print_message(ms[0])
    } else {
        spec_print_message(ms[0]) + ","@ + spec_print_items(ms.skip(1))
    }
}

/// The message list as printed.
pub open spec fn spec_print_messages(ms: Seq<MessageView>) -> Seq<char> {
    "["@ + spec_print_items(ms) + "]"@
}

/// The stop sequences, printed one after another with commas between.
pub open spec fn spec_print_str_items(ss: Seq<Seq<char>>) -> Seq<char>
    decreases ss.len(),
{
    if ss.len() == 0 {
        Seq::empty()
    } else if ss.len() == 1 {
        spec_print_string(ss[0])
    } else {
        spec_print_string(ss[0]) + ","@ + spec_print_str_items(ss.skip(1))
    }
}

/// An optional value in thousandths: a decimal, or null.
pub open spec fn spec_print_opt_milli(v: Option<i64>) -> Seq<char> {
    match v {
        Some(m) => spec_print_milli(m as int),
        None => "null"@,
    }
}

/// An optional count: a decimal, or null.
pub open spec fn spec_print_opt_u32(v: Option<u32>) -> Seq<char> {
    match v {
        Some(n) => spec_print_nat(n as nat),
        None => "null"@,
    }
}

/// An optional flag: true, false, or null.
pub open spec fn spec_print_opt_bool(v: Option<bool>) -> Seq<char> {
    match v {
        Some(true) => "true"@,
        Some(false) => "false"@,
        None => "null"@,
    }
}

/// The optional stop-sequence list: an array of strings, or null.
pub open spec fn spec_print_opt_strings(v: Option<Seq<Seq<char>>>) -> Seq<char> {
    match v {
        Some(ss) => "["@ + spec_print_str_items(ss) + "]"@,
        None => "null"@,
    }
}

/// The front half of the printed record: model, messages and the two
/// sampling shares.
pub open spec fn spec_print_chat_front(c: ChatView) -> Seq<char> {
    "{\"model\":"@ + spec_print_string(c.model) + ",\"messages\":"@ + spec_print_messages(
        c.messages,
    ) + ",\"temperature\":"@ + spec_print_opt_milli(c.temperature) + ",\"top_p\":"@
        + spec_print_opt_milli(c.top_p)
}

/// The back half of the printed record: the counts, the flags, the stop
/// sequences and the penalties.
pub open spec fn spec_print_chat_tail(c: ChatView) -> Seq<char> {
    ",\"n\":"@ + spec_print_opt_u32(c.n) + ",\"stream\":"@ + spec_print_opt_bool(c.stream)
        + ",\"stop\":"@ + spec_print_opt_strings(c.stop) + ",\"max_tokens\":"@
        + spec_print_opt_u32(c.max_tokens) + ",\"presence_penalty\":"@ + spec_print_opt_milli(
        c.presence_penalty,
    ) + ",\"frequency_penalty\":"@ + spec_print_opt_milli(c.frequency_penalty) + "}"@
}

/// The whole session record as printed: every field, in one fixed order,
/// with no whitespace.
pub open spec fn spec_print_chat(c: ChatView) -> Seq<char> {
    spec_print_chat_front(c) + spec_print_chat_tail(c)
}

// ---------------------------------------------------------------------------
// the executable printer
// ---------------------------------------------------------------------------

/// Appends the characters of a literal onto the output.
pub fn push_lit(out: &mut Vec<char>, lit: &str)
    ensures
        final(out)@ == old(out)@ + lit@,
{
    let cs = str_to_chars(lit);
    let mut i: usize = 0;
    while i < cs.len()
        invariant
            i <= cs@.len(),
            cs@ == lit@,
            out@ == old(out)@ + cs@.take(i as int),
        decreases cs@.len() - i,
    {
        out.push(cs[i]);
        proof {
            assert(cs@.take(i + 1) =~= cs@.take(i as int).push(cs@[i as int]));
            assert(out@ =~= old(out)@ + cs@.take(i + 1));
        }
        i += 1;
    }
    proof {
        assert(cs@.take(cs@.len() as int) =~= lit@);
    }
}

/// The wire name of a role, executable.
pub fn role_name(r: &Role) -> (s: &'static str)
    ensures
        s@ == spec_role_name(*r),
{
    match r {
        Role::User => "user",
        Role::System => "system",
        Role::Assistant => "assistant",
    }
}

/// Appends one printed message onto the output.
pub fn print_message_into(out: &mut Vec<char>, m: &ChatMessage)
    ensures
        final(out)@ == old(out)@ + spec_print_message(m@),
{
    push_lit(out, "{\"role\":\"");
    push_lit(out, role_name(&m.role));
    push_lit(out, "\",\"content\":");
    let cs = str_to_chars(m.content.as_str());
    print_string_into(out, &cs);
    push_lit(out, "}");
    proof {
        assert(out@ =~= old(out)@ + spec_print_message(m@));
    }
}

/// One more printed item extends the joined items.
pub proof fn lemma_print_items_snoc(ms: Seq<MessageView>, m: MessageView)
    ensures
        spec_print_items(ms.push(m)) == if ms.len() == 0 {
            spec_print_message(m)
        } else {
            spec_print_items(ms) + ","@ + spec_print_message(m)
        },
    decreases ms.len(),
{
    let e = ms.push(m);
    if ms.len() == 0 {
        assert(e.len() == 1);
        assert(e[0] == m);
    } else {
        assert(e.len() >= 2);
        assert(e[0] == ms[0]);
        assert(e.skip(1) =~= ms.skip(1).push(m));
        lemma_print_items_snoc(ms.skip(1), m);
        if ms.len() == 1 {
            assert(ms.skip(1).len() == 0);
            assert(spec_print_items(e) == spec_print_message(ms[0]) + ","@ + spec_print_message(
                m,
            ));
            assert(spec_print_items(ms) == spec_print_message(ms[0]));
        } else {
            assert(spec_print_items(e) == spec_print_message(ms[0]) + ","@ + (spec_print_items(
                ms.skip(1),
            ) + ","@ + spec_print_message(m)));
            assert(spec_print_message(ms[0]) + ","@ + (spec_print_items(ms.skip(1)) + ","@
                + spec_print_message(m)) =~= (spec_print_message(ms[0]) + ","@ + spec_print_items(
                ms.skip(1),
            )) + ","@ + spec_print_message(m));
        }
    }
}

/// One more printed stop sequence extends the joined items.
pub proof fn lemma_print_str_items_snoc(ss: Seq<Seq<char>>, v: Seq<char>)
    ensures
        spec_print_str_items(ss.push(v)) == if ss.len() == 0 {
            spec_print_string(v)
        } else {
            spec_print_str_items(ss) + ","@ + spec_print_string(v)
        },
    decreases ss.len(),
{
    let e = ss.push(v);
    if ss.len() == 0 {
        assert(e.len() == 1);
        assert(e[0] == v);
    } else {
        assert(e[0] == ss[0]);
        assert(e.skip(1) =~= ss.skip(1).push(v));
        lemma_print_str_items_snoc(ss.skip(1), v);
        if ss.len() == 1 {
            assert(ss.skip(1).len() == 0);
        } else {
            assert(spec_print_string(e[0]) + ","@ + (spec_print_str_items(ss.skip(1)) + ","@
                + spec_print_string(v)) =~= (spec_print_string(ss[0]) + ","@
                + spec_print_str_items(ss.skip(1))) + ","@ + spec_print_string(v));
        }
    }
}

/// Appends the printed message list onto the output.
pub fn print_messages_into(out: &mut Vec<char>, ms: &Vec<ChatMessage>)
    ensures
        final(out)@ == old(out)@ + spec_print_messages(
            Seq::new(ms@.len(), |i: int| ms@[i]@),
        ),
{
    let ghost msv = Seq::new(ms@.len(), |i: int| ms@[i]@);
    push_lit(out, "[");
    let mut i: usize = 0;
    proof {
        assert(msv.take(0) =~= Seq::<MessageView>::empty());
        assert(out@ =~= old(out)@ + "["@ + spec_print_items(msv.take(0)));
    }
    while i < ms.len()
        invariant
            i <= ms@.len(),
            msv == Seq::new(ms@.len(), |j: int| ms@[j]@),
            out@ == old(out)@ + "["@ + spec_print_items(msv.take(i as int)),
        decreases ms@.len() - i,
    {
        let ghost pre = out@;
        if i > 0 {
            push_lit(out, ",");
        }
        print_message_into(out, &ms[i]);
        proof {
            assert(msv.take(i + 1) =~= msv.take(i as int).push(msv[i as int]));
            lemma_print_items_snoc(msv.take(i as int), msv[i as int]);
            assert(msv[i as int] == ms@[i as int]@);
            if i == 0 {
                assert(out@ =~= old(out)@ + "["@ + spec_print_items(msv.take(i + 1)));
            } else {
                assert(out@ =~= old(out)@ + "["@ + spec_print_items(msv.take(i + 1)));
            }
        }
        i += 1;
    }
    push_lit(out, "]");
    proof {
        assert(msv.take(ms@.len() as int) =~= msv);
        assert(out@ =~= old(out)@ + spec_print_messages(msv));
    }
}

/// Appends the printed stop-sequence list onto the output.
pub fn print_stop_into(out: &mut Vec<char>, ss: &Vec<String>)
    ensures
        final(out)@ == old(out)@ + "["@ + spec_print_str_items(
            Seq::new(ss@.len(), |i: int| ss@[i]@),
        ) + "]"@,
{
    let ghost ssv = Seq::new(ss@.len(), |i: int| ss@[i]@);
    push_lit(out, "[");
    let mut i: usize = 0;
    proof {
        assert(ssv.take(0) =~= Seq::<Seq<char>>::empty());
        assert(out@ =~= old(out)@ + "["@ + spec_print_str_items(ssv.take(0)));
    }
    while i < ss.len()
        invariant
            i <= ss@.len(),
            ssv == Seq::new(ss@.len(), |j: int| ss@[j]@),
            out@ == old(out)@ + "["@ + spec_print_str_items(ssv.take(i as int)),
        decreases ss@.len() - i,
    {
        if i > 0 {
            push_lit(out, ",");
        }
        let cs = str_to_chars(ss[i].as_str());
        print_string_into(out, &cs);
        proof {
            assert(ssv.take(i + 1) =~= ssv.take(i as int).push(ssv[i as int]));
            lemma_print_str_items_snoc(ssv.take(i as int), ssv[i as int]);
            assert(ssv[i as int] == ss@[i as int]@);
            assert(out@ =~= old(out)@ + "["@ + spec_print_str_items(ssv.take(i + 1)));
        }
        i += 1;
    }
    push_lit(out, "]");
    proof {
        assert(ssv.take(ss@.len() as int) =~= ssv);
    }
}

/// Appends an optional value in thousandths, or null.
pub fn print_opt_milli_into(out: &mut Vec<char>, v: &Option<i64>)
    ensures
        final(out)@ == old(out)@ + spec_print_opt_milli(*v),
{
    match v {
        Some(m) => print_milli(out, *m),
        None => push_lit(out, "null"),
    }
}

/// Appends an optional count, or null.
pub fn print_opt_u32_into(out: &mut Vec<char>, v: &Option<u32>)
    ensures
        final(out)@ == old(out)@ + spec_print_opt_u32(*v),
{
    match v {
        Some(n) => print_u64(out, *n as u64),
        None => push_lit(out, "null"),
    }
}

/// Appends an optional flag, or null.
pub fn print_opt_bool_into(out: &mut Vec<char>, v: &Option<bool>)
    ensures
        final(out)@ == old(out)@ + spec_print_opt_bool(*v),
{
    match v {
        Some(true) => push_lit(out, "true"),
        Some(false) => push_lit(out, "false"),
        None => push_lit(out, "null"),
    }
}

/// Appends the front half of a printed record onto the output.
#[verifier::rlimit(100)]
fn print_chat_front_into(out: &mut Vec<char>, c: &Chat)
    ensures
        final(out)@ == old(out)@ + spec_print_chat_front(c@),
{
    push_lit(out, "{\"model\":");
    let cs = str_to_chars(c.model.as_str());
    print_string_into(out, &cs);
    push_lit(out, ",\"messages\":");
    print_messages_into(out, &c.messages);
    push_lit(out, ",\"temperature\":");
    print_opt_milli_into(out, &c.temperature);
    push_lit(out, ",\"top_p\":");
    print_opt_milli_into(out, &c.top_p);
    proof {
        assert(out@ =~= old(out)@ + spec_print_chat_front(c@));
    }
}

/// Appends the back half of a printed record onto the output.
#[verifier::rlimit(100)]
fn print_chat_tail_into(out: &mut Vec<char>, c: &Chat)
    ensures
        final(out)@ == old(out)@ + spec_print_chat_tail(c@),
{
    push_lit(out, ",\"n\":");
    print_opt_u32_into(out, &c.n);
    push_lit(out, ",\"stream\":");
    print_opt_bool_into(out, &c.stream);
    push_lit(out, ",\"stop\":");
    match c.stop {
        Some(ref ss) => print_stop_into(out, ss),
        None => push_lit(out, "null"),
    }
    push_lit(out, ",\"max_tokens\":");
    print_opt_u32_into(out, &c.max_tokens);
    push_lit(out, ",\"presence_penalty\":");
    print_opt_milli_into(out, &c.presence_penalty);
    push_lit(out, ",\"frequency_penalty\":");
    print_opt_milli_into(out, &c.frequency_penalty);
    push_lit(out, "}");
    proof {
        assert(out@ =~= old(out)@ + spec_print_chat_tail(c@));
    }
}

/// Serializes a session record into its canonical JSON text.
pub fn chat_to_json(c: &Chat) -> (r: String)
    ensures
        r@ == spec_print_chat(c@),
{
    let mut out: Vec<char> = Vec::new();
    print_chat_front_into(&mut out, c);
    print_chat_tail_into(&mut out, c);
    proof {
        assert(out@ =~= spec_print_chat(c@));
    }
    chars_to_string(&out)
}

// ---------------------------------------------------------------------------
// the parsed form
// ---------------------------------------------------------------------------

/// Reads a role name.
pub open spec fn spec_parse_role(s: Seq<char>, pos: int) -> Option<(Role, int)> {
    if spec_match_lit(s, pos, "user"@) {
        Some((Role::User, pos + "user"@.len()))
    } else if spec_match_lit(s, pos, "system"@) {
        Some((Role::System, pos + "system"@.len()))
    } else if spec_match_lit(s, pos, "assistant"@) {
        Some((Role::Assistant, pos + "assistant"@.len()))
    } else {
        None
    }
}

/// Reads one message object.
pub open spec fn spec_parse_message(s: Seq<char>, pos: int) -> Option<(MessageView, int)> {
    if !spec_match_lit(s, pos, "{\"role\":\""@) {
        None
    } else {
        let p1 = pos + "{\"role\":\""@.len();
        match spec_parse_role(s, p1) {
            None => None,
            Some((role, p2)) => {
                if !spec_match_lit(s, p2, "\",\"content\":"@) {
                    None
                } else {
                    let p3 = p2 + "\",\"content\":"@.len();
                    match spec_parse_string(s, p3) {
                        None => None,
                        Some((content, p4)) => {
                            if spec_match_lit(s, p4, "}"@) {
                                Some((MessageView { role, content }, p4 + "}"@.len()))
                            } else {
                                None
                            }
                        },
                    }
                }
            },
        }
    }
}

/// Reads the remainder of a message list: either the closing bracket, or
/// a comma and one more message.
pub open spec fn spec_parse_messages_rest(s: Seq<char>, pos: int) -> Option<
    (Seq<MessageView>, int),
>
    decreases s.len() - pos,
{
    if pos < 0 || pos >= s.len() {
        None
    } else if s[pos] == ']' {
        Some((Seq::empty(), pos + 1))
    } else if s[pos] == ',' {
        match spec_parse_message(s, pos + 1) {
            None => None,
            Some((m, p)) => {
                if pos < p <= s.len() {
                    match spec_parse_messages_rest(s, p) {
                        None => None,
                        Some((ms, e)) => Some((seq![m] + ms, e)),
                    }
                } else {
                    None
                }
            },
        }
    } else {
        None
    }
}

/// Reads a whole message list.
pub open spec fn spec_parse_messages(s: Seq<char>, pos: int) -> Option<(Seq<MessageView>, int)> {
    if !spec_match_lit(s, pos, "["@) {
        None
    } else {
        let p1 = pos + "["@.len();
        if 0 <= p1 < s.len() && s[p1] == ']' {
            Some((Seq::empty(), p1 + 1))
        } else {
            match spec_parse_message(s, p1) {
                None => None,
                Some((m, p2)) => {
                    if p1 < p2 <= s.len() {
                        match spec_parse_messages_rest(s, p2) {
                            None => None,
                            Some((ms, e)) => Some((seq![m] + ms, e)),
                        }
                    } else {
                        None
                    }
                },
            }
        }
    }
}

/// Reads the remainder of a string list.
pub open spec fn spec_parse_strs_rest(s: Seq<char>, pos: int) -> Option<(Seq<Seq<char>>, int)>
    decreases s.len() - pos,
{
    if pos < 0 || pos >= s.len() {
        None
    } else if s[pos] == ']' {
        Some((Seq::empty(), pos + 1))
    } else if s[pos] == ',' {
        match spec_parse_string(s, pos + 1) {
            None => None,
            Some((v, p)) => {
                if pos < p <= s.len() {
                    match spec_parse_strs_rest(s, p) {
                        None => None,
                        Some((vs, e)) => Some((seq![v] + vs, e)),
                    }
                } else {
                    None
                }
            },
        }
    } else {
        None
    }
}

/// Reads a whole string list.
pub open spec fn spec_parse_strings(s: Seq<char>, pos: int) -> Option<(Seq<Seq<char>>, int)> {
    if !spec_match_lit(s, pos, "["@) {
        None
    } else {
        let p1 = pos + "["@.len();
        if 0 <= p1 < s.len() && s[p1] == ']' {
            Some((Seq::empty(), p1 + 1))
        } else {
            match spec_parse_string(s, p1) {
                None => None,
                Some((v, p2)) => {
                    if p1 < p2 <= s.len() {
                        match spec_parse_strs_rest(s, p2) {
                            None => None,
                            Some((vs, e)) => Some((seq![v] + vs, e)),
                        }
                    } else {
                        None
                    }
                },
            }
        }
    }
}

/// Reads an optional value in thousandths, or null.
pub open spec fn spec_parse_opt_milli(s: Seq<char>, pos: int) -> Option<(Option<i64>, int)> {
    if spec_match_lit(s, pos, "null"@) {
        Some((None, pos + "null"@.len()))
    } else {
        match spec_parse_milli(s, pos) {
            None => None,
            Some((v, p)) => {
                if i64::MIN <= v <= i64::MAX {
                    Some((Some(v as i64), p))
                } else {
                    None
                }
            },
        }
    }
}

/// Reads an optional count, or null.
pub open spec fn spec_parse_opt_u32(s: Seq<char>, pos: int) -> Option<(Option<u32>, int)> {
    if spec_match_lit(s, pos, "null"@) {
        Some((None, pos + "null"@.len()))
    } else {
        match spec_parse_nat(s, pos) {
            None => None,
            Some((v, p)) => {
                if v <= u32::MAX {
                    Some((Some(v as u32), p))
                } else {
                    None
                }
            },
        }
    }
}

/// Reads an optional flag, or null.
pub open spec fn spec_parse_opt_bool(s: Seq<char>, pos: int) -> Option<(Option<bool>, int)> {
    if spec_match_lit(s, pos, "true"@) {
        Some((Some(true), pos + "true"@.len()))
    } else if spec_match_lit(s, pos, "false"@) {
        Some((Some(false), pos + "false"@.len()))
    } else if spec_match_lit(s, pos, "null"@) {
        Some((None, pos + "null"@.len()))
    } else {
        None
    }
}

/// Reads an optional string list, or null.
pub open spec fn spec_parse_opt_strings(s: Seq<char>, pos: int) -> Option<
    (Option<Seq<Seq<char>>>, int),
> {
    if spec_match_lit(s, pos, "null"@) {
        Some((None, pos + "null"@.len()))
    } else {
        match spec_parse_strings(s, pos) {
            None => None,
            Some((vs, p)) => Some((Some(vs), p)),
        }
    }
}

// ---------------------------------------------------------------------------
// round-trip lemmas, piece by piece
// ---------------------------------------------------------------------------

/// A piece of a matched region is itself matched.
pub proof fn lemma_chunk(s: Seq<char>, pos: int, whole: Seq<char>, off: int, part: Seq<char>)
    requires
        0 <= pos,
        pos + whole.len() <= s.len(),
        s.subrange(pos, pos + whole.len() as int) == whole,
        0 <= off,
        off + part.len() <= whole.len(),
        forall|i: int| 0 <= i < part.len() ==> whole[off + i] == #[trigger] part[i],
    ensures
        s.subrange(pos + off, pos + off + part.len() as int) == part,
        spec_match_lit(s, pos + off, part),
{
    assert forall|i: int| 0 <= i < part.len() implies s.subrange(
        pos + off,
        pos + off + part.len() as int,
    )[i] == part[i] by {
        assert(s.subrange(pos + off, pos + off + part.len() as int)[i] == s[pos + off + i]);
        assert(s[pos + off + i] == s.subrange(pos, pos + whole.len() as int)[off + i]);
        assert(whole[off + i] == part[i]);
    }
    assert(s.subrange(pos + off, pos + off + part.len() as int) =~= part);
}

/// Parsing right after printing a message gives the message back.
pub proof fn lemma_parse_print_message(s: Seq<char>, pos: int, m: MessageView)
    requires
        0 <= pos,
        pos + spec_print_message(m).len() <= s.len(),
        s.subrange(pos, pos + spec_print_message(m).len() as int) == spec_print_message(m),
    ensures
        spec_parse_message(s, pos) == Some((m, pos + spec_print_message(m).len() as int)),
{
    let whole = spec_print_message(m);
    let a = "{\"role\":\""@;
    let rn = spec_role_name(m.role);
    let b = "\",\"content\":"@;
    let st = spec_print_string(m.content);
    let cl = "}"@;
    reveal_strlit("{\"role\":\"");
    reveal_strlit("\",\"content\":");
    reveal_strlit("}");
    reveal_strlit("user");
    reveal_strlit("system");
    reveal_strlit("assistant");
    assert(whole == a + rn + b + st + cl);
    let o1 = a.len() as int;
    let o2 = o1 + rn.len() as int;
    let o3 = o2 + b.len() as int;
    let o4 = o3 + st.len() as int;
    assert forall|i: int| 0 <= i < a.len() implies whole[0 + i] == #[trigger] a[i] by {}
    lemma_chunk(s, pos, whole, 0, a);
    assert forall|i: int| 0 <= i < rn.len() implies whole[o1 + i] == #[trigger] rn[i] by {}
    lemma_chunk(s, pos, whole, o1, rn);
    assert forall|i: int| 0 <= i < b.len() implies whole[o2 + i] == #[trigger] b[i] by {}
    lemma_chunk(s, pos, whole, o2, b);
    assert forall|i: int| 0 <= i < st.len() implies whole[o3 + i] == #[trigger] st[i] by {}
    lemma_chunk(s, pos, whole, o3, st);
    assert forall|i: int| 0 <= i < cl.len() implies whole[o4 + i] == #[trigger] cl[i] by {}
    lemma_chunk(s, pos, whole, o4, cl);
    // the role names start with distinct characters
    let p1 = pos + o1;
    match m.role {
        Role::User => {
            assert(spec_match_lit(s, p1, "user"@));
            assert(spec_parse_role(s, p1) == Some((Role::User, p1 + 4)));
        },
        Role::System => {
            assert(s[p1] == s.subrange(p1, p1 + rn.len() as int)[0]);
            assert(s[p1] == 's');
            assert(!spec_match_lit(s, p1, "user"@)) by {
                if spec_match_lit(s, p1, "user"@) {
                    assert(s.subrange(p1, p1 + 4)[0] == 'u');
                }
            }
            assert(spec_parse_role(s, p1) == Some((Role::System, p1 + 6)));
        },
        Role::Assistant => {
            assert(s[p1] == s.subrange(p1, p1 + rn.len() as int)[0]);
            assert(s[p1] == 'a');
            assert(!spec_match_lit(s, p1, "user"@)) by {
                if spec_match_lit(s, p1, "user"@) {
                    assert(s.subrange(p1, p1 + 4)[0] == 'u');
                }
            }
            assert(!spec_match_lit(s, p1, "system"@)) by {
                if spec_match_lit(s, p1, "system"@) {
                    assert(s.subrange(p1, p1 + 6)[0] == 's');
                }
            }
            assert(spec_parse_role(s, p1) == Some((Role::Assistant, p1 + 9)));
        },
    }
    lemma_parse_print_string(s, pos + o3, m.content);
    assert(spec_parse_message(s, pos) == Some(
        (MessageView { role: m.role, content: m.content }, pos + o4 + 1),
    ));
    assert(MessageView { role: m.role, content: m.content } == m);
}

/// The tail of a printed item list: a comma before each further item.
pub open spec fn spec_print_items_rest(ms: Seq<MessageView>) -> Seq<char>
    decreases ms.len(),
{
    if ms.len() == 0 {
        Seq::empty()
    } else {
        ","@ + spec_print_message(ms[0]) + spec_print_items_rest(ms.skip(1))
    }
}

/// A non-empty item list is its first item and the tail.
pub proof fn lemma_print_items_cons(ms: Seq<MessageView>)
    requires
        ms.len() >= 1,
    ensures
        spec_print_items(ms) == spec_print_message(ms[0]) + spec_print_items_rest(ms.skip(1)),
    decreases ms.len(),
{
    if ms.len() == 1 {
        assert(spec_print_items_rest(ms.skip(1)) =~= Seq::<char>::empty());
        assert(spec_print_message(ms[0]) + Seq::<char>::empty() =~= spec_print_message(ms[0]));
    } else {
        lemma_print_items_cons(ms.skip(1));
        assert(ms.skip(1).skip(1) =~= ms.skip(2));
        assert(spec_print_message(ms[0]) + ","@ + (spec_print_message(ms.skip(1)[0])
            + spec_print_items_rest(ms.skip(1).skip(1))) =~= spec_print_message(ms[0]) + (","@
            + spec_print_message(ms.skip(1)[0]) + spec_print_items_rest(ms.skip(1).skip(1))));
    }
}

/// Parsing a printed list tail gives the items back; the tail is followed
/// in the text by the closing bracket.
pub proof fn lemma_parse_print_items_rest(s: Seq<char>, pos: int, ms: Seq<MessageView>)
    requires
        0 <= pos,
        pos + spec_print_items_rest(ms).len() + 1 <= s.len(),
        s.subrange(pos, pos + spec_print_items_rest(ms).len() as int) == spec_print_items_rest(
            ms,
        ),
        s[pos + spec_print_items_rest(ms).len() as int] == ']',
    ensures
        spec_parse_messages_rest(s, pos) == Some(
            (ms, pos + spec_print_items_rest(ms).len() + 1),
        ),
    decreases ms.len(),
{
    let whole = spec_print_items_rest(ms);
    let l = whole.len() as int;
    if ms.len() == 0 {
        assert(s[pos] == ']');
        assert(Seq::<MessageView>::empty() =~= ms);
    } else {
        let pm = spec_print_message(ms[0]);
        let rest = spec_print_items_rest(ms.skip(1));
        assert(whole == ","@ + pm + rest);
        reveal_strlit(",");
        assert(s[pos + 0] == s.subrange(pos, pos + l)[0]);
        assert(s[pos] == ',');
        assert forall|i: int| 0 <= i < pm.len() implies whole[1 + i] == #[trigger] pm[i] by {}
        lemma_chunk(s, pos, whole, 1, pm);
        lemma_parse_print_message(s, pos + 1, ms[0]);
        let p = pos + 1 + pm.len() as int;
        assert forall|i: int| 0 <= i < rest.len() implies whole[(1 + pm.len() as int) + i]
            == #[trigger] rest[i] by {}
        lemma_chunk(s, pos, whole, 1 + pm.len() as int, rest);
        assert(s[p + rest.len() as int] == ']') by {
            assert(p + rest.len() as int == pos + l);
        }
        lemma_parse_print_items_rest(s, p, ms.skip(1));
        assert(s[pos] != ']') by {
            assert((',' as u32) == 44 && (']' as u32) == 93);
        }
        assert(spec_parse_messages_rest(s, pos) == Some(
            (seq![ms[0]] + ms.skip(1), pos + l + 1),
        ));
        assert(seq![ms[0]] + ms.skip(1) =~= ms);
    }
}

/// Parsing right after printing a message list gives the messages back.
pub proof fn lemma_parse_print_messages(s: Seq<char>, pos: int, ms: Seq<MessageView>)
    requires
        0 <= pos,
        pos + spec_print_messages(ms).len() <= s.len(),
        s.subrange(pos, pos + spec_print_messages(ms).len() as int) == spec_print_messages(ms),
    ensures
        spec_parse_messages(s, pos) == Some((ms, pos + spec_print_messages(ms).len() as int)),
{
    let whole = spec_print_messages(ms);
    let items = spec_print_items(ms);
    let l = whole.len() as int;
    reveal_strlit("[");
    reveal_strlit("]");
    assert(whole == "["@ + items + "]"@);
    assert(s[pos + 0] == s.subrange(pos, pos + l)[0]);
    assert(s[pos] == '[');
    assert(spec_match_lit(s, pos, "["@)) by {
        assert(s.subrange(pos, pos + 1) =~= seq![s[pos]]);
        assert("["@ =~= seq!['[']);
    }
    let p1 = pos + 1;
    assert(s[pos + (l - 1)] == s.subrange(pos, pos + l)[l - 1]);
    assert(s[pos + l - 1] == ']');
    if ms.len() == 0 {
        assert(items =~= Seq::<char>::empty());
        assert(l == 2);
        assert(s[p1] == ']');
    } else {
        lemma_print_items_cons(ms);
        let pm = spec_print_message(ms[0]);
        let rest = spec_print_items_rest(ms.skip(1));
        assert(items == pm + rest);
        assert forall|i: int| 0 <= i < pm.len() implies whole[1 + i] == #[trigger] pm[i] by {}
        lemma_chunk(s, pos, whole, 1, pm);
        lemma_parse_print_message(s, p1, ms[0]);
        let p2 = p1 + pm.len() as int;
        assert forall|i: int| 0 <= i < rest.len() implies whole[(1 + pm.len() as int) + i]
            == #[trigger] rest[i] by {}
        lemma_chunk(s, pos, whole, 1 + pm.len() as int, rest);
        assert(s[p2 + rest.len() as int] == ']') by {
            assert(p2 + rest.len() as int == pos + l - 1);
        }
        lemma_parse_print_items_rest(s, p2, ms.skip(1));
        // a message never opens with the closing bracket
        assert(s[p1] == pm[0]) by {
            assert(s.subrange(p1, p1 + pm.len() as int)[0] == pm[0]);
        }
        reveal_strlit("{\"role\":\"");
        assert(pm[0] == '{');
        assert(s[p1] != ']') by {
            assert(('{' as u32) == 123 && (']' as u32) == 93);
        }
        assert(spec_parse_messages(s, pos) == Some((seq![ms[0]] + ms.skip(1), pos + l)));
        assert(seq![ms[0]] + ms.skip(1) =~= ms);
    }
}

/// The tail of a printed string list.
pub open spec fn spec_print_strs_rest(ss: Seq<Seq<char>>) -> Seq<char>
    decreases ss.len(),
{
    if ss.len() == 0 {
        Seq::empty()
    } else {
        ","@ + spec_print_string(ss[0]) + spec_print_strs_rest(ss.skip(1))
    }
}

/// A non-empty string list is its first string and the tail.
pub proof fn lemma_print_strs_cons(ss: Seq<Seq<char>>)
    requires
        ss.len() >= 1,
    ensures
        spec_print_str_items(ss) == spec_print_string(ss[0]) + spec_print_strs_rest(ss.skip(1)),
    decreases ss.len(),
{
    if ss.len() == 1 {
        assert(spec_print_strs_rest(ss.skip(1)) =~= Seq::<char>::empty());
        assert(spec_print_string(ss[0]) + Seq::<char>::empty() =~= spec_print_string(ss[0]));
    } else {
        lemma_print_strs_cons(ss.skip(1));
        assert(ss.skip(1).skip(1) =~= ss.skip(2));
        assert(spec_print_string(ss[0]) + ","@ + (spec_print_string(ss.skip(1)[0])
            + spec_print_strs_rest(ss.skip(1).skip(1))) =~= spec_print_string(ss[0]) + (","@
            + spec_print_string(ss.skip(1)[0]) + spec_print_strs_rest(ss.skip(1).skip(1))));
    }
}

/// Parsing a printed string-list tail gives the strings back.
pub proof fn lemma_parse_print_strs_rest(s: Seq<char>, pos: int, ss: Seq<Seq<char>>)
    requires
        0 <= pos,
        pos + spec_print_strs_rest(ss).len() + 1 <= s.len(),
        s.subrange(pos, pos + spec_print_strs_rest(ss).len() as int) == spec_print_strs_rest(ss),
        s[pos + spec_print_strs_rest(ss).len() as int] == ']',
    ensures
        spec_parse_strs_rest(s, pos) == Some((ss, pos + spec_print_strs_rest(ss).len() + 1)),
    decreases ss.len(),
{
    let whole = spec_print_strs_rest(ss);
    let l = whole.len() as int;
    if ss.len() == 0 {
        assert(s[pos] == ']');
        assert(Seq::<Seq<char>>::empty() =~= ss);
    } else {
        let pm = spec_print_string(ss[0]);
        let rest = spec_print_strs_rest(ss.skip(1));
        assert(whole == ","@ + pm + rest);
        reveal_strlit(",");
        assert(s[pos + 0] == s.subrange(pos, pos + l)[0]);
        assert(s[pos] == ',');
        assert forall|i: int| 0 <= i < pm.len() implies whole[1 + i] == #[trigger] pm[i] by {}
        lemma_chunk(s, pos, whole, 1, pm);
        lemma_parse_print_string(s, pos + 1, ss[0]);
        let p = pos + 1 + pm.len() as int;
        assert forall|i: int| 0 <= i < rest.len() implies whole[(1 + pm.len() as int) + i]
            == #[trigger] rest[i] by {}
        lemma_chunk(s, pos, whole, 1 + pm.len() as int, rest);
        assert(s[p + rest.len() as int] == ']') by {
            assert(p + rest.len() as int == pos + l);
        }
        lemma_parse_print_strs_rest(s, p, ss.skip(1));
        assert(s[pos] != ']') by {
            assert((',' as u32) == 44 && (']' as u32) == 93);
        }
        assert(spec_parse_strs_rest(s, pos) == Some((seq![ss[0]] + ss.skip(1), pos + l + 1)));
        assert(seq![ss[0]] + ss.skip(1) =~= ss);
    }
}

/// Parsing right after printing a string list gives the strings back.
pub proof fn lemma_parse_print_strings(s: Seq<char>, pos: int, ss: Seq<Seq<char>>)
    requires
        0 <= pos,
        pos + ("["@ + spec_print_str_items(ss) + "]"@).len() <= s.len(),
        s.subrange(pos, pos + ("["@ + spec_print_str_items(ss) + "]"@).len() as int) == "["@
            + spec_print_str_items(ss) + "]"@,
    ensures
        spec_parse_strings(s, pos) == Some(
            (ss, pos + ("["@ + spec_print_str_items(ss) + "]"@).len() as int),
        ),
{
    let whole = "["@ + spec_print_str_items(ss) + "]"@;
    let items = spec_print_str_items(ss);
    let l = whole.len() as int;
    reveal_strlit("[");
    reveal_strlit("]");
    assert(s[pos + 0] == s.subrange(pos, pos + l)[0]);
    assert(s[pos] == '[');
    assert(spec_match_lit(s, pos, "["@)) by {
        assert(s.subrange(pos, pos + 1) =~= seq![s[pos]]);
        assert("["@ =~= seq!['[']);
    }
    let p1 = pos + 1;
    assert(s[pos + (l - 1)] == s.subrange(pos, pos + l)[l - 1]);
    assert(s[pos + l - 1] == ']');
    if ss.len() == 0 {
        assert(items =~= Seq::<char>::empty());
        assert(l == 2);
        assert(s[p1] == ']');
    } else {
        lemma_print_strs_cons(ss);
        let pm = spec_print_string(ss[0]);
        let rest = spec_print_strs_rest(ss.skip(1));
        assert(items == pm + rest);
        assert forall|i: int| 0 <= i < pm.len() implies whole[1 + i] == #[trigger] pm[i] by {}
        lemma_chunk(s, pos, whole, 1, pm);
        lemma_parse_print_string(s, p1, ss[0]);
        let p2 = p1 + pm.len() as int;
        assert forall|i: int| 0 <= i < rest.len() implies whole[(1 + pm.len() as int) + i]
            == #[trigger] rest[i] by {}
        lemma_chunk(s, pos, whole, 1 + pm.len() as int, rest);
        assert(s[p2 + rest.len() as int] == ']') by {
            assert(p2 + rest.len() as int == pos + l - 1);
        }
        lemma_parse_print_strs_rest(s, p2, ss.skip(1));
        // a printed string opens with a quote, never with the bracket
        assert(s[p1] == pm[0]) by {
            assert(s.subrange(p1, p1 + pm.len() as int)[0] == pm[0]);
        }
        assert(pm[0] == '"');
        assert(s[p1] != ']') by {
            assert(('"' as u32) == 34 && (']' as u32) == 93);
        }
        assert(spec_parse_strings(s, pos) == Some((seq![ss[0]] + ss.skip(1), pos + l)));
        assert(seq![ss[0]] + ss.skip(1) =~= ss);
    }
}

/// Parsing right after printing an optional thousandths value gives it
/// back, provided neither a digit nor a dot follows directly.
pub proof fn lemma_parse_print_opt_milli(s: Seq<char>, pos: int, v: Option<i64>)
    requires
        0 <= pos,
        pos + spec_print_opt_milli(v).len() <= s.len(),
        s.subrange(pos, pos + spec_print_opt_milli(v).len() as int) == spec_print_opt_milli(v),
        pos + spec_print_opt_milli(v).len() == s.len() || (!is_digit(
            s[pos + spec_print_opt_milli(v).len() as int],
        ) && s[pos + spec_print_opt_milli(v).len() as int] != '.'),
    ensures
        spec_parse_opt_milli(s, pos) == Some((v, pos + spec_print_opt_milli(v).len() as int)),
{
    let whole = spec_print_opt_milli(v);
    let l = whole.len() as int;
    reveal_strlit("null");
    match v {
        None => {
            assert(spec_match_lit(s, pos, "null"@));
        },
        Some(m) => {
            assert(s[pos + 0] == s.subrange(pos, pos + l)[0]);
            assert(s[pos] == whole[0]);
            // the printed number opens with a sign or a digit, never 'n'
            if m < 0 {
                assert(whole[0] == '-');
            } else {
                lemma_print_nat_digits(((if m < 0 {
                    -m
                } else {
                    m as int
                }) / 1000) as nat);
                assert(whole[0] == spec_print_nat(((m as int) / 1000) as nat)[0]);
                assert(is_digit(whole[0]));
            }
            assert(s[pos] != 'n') by {
                assert(('n' as u32) == 110 && ('-' as u32) == 45);
            }
            assert(!spec_match_lit(s, pos, "null"@)) by {
                if spec_match_lit(s, pos, "null"@) {
                    assert(s.subrange(pos, pos + 4)[0] == 'n');
                }
            }
            lemma_parse_print_milli(s, pos, m as int);
        },
    }
}

/// Parsing right after printing an optional count gives it back, provided
/// no digit follows directly.
pub proof fn lemma_parse_print_opt_u32(s: Seq<char>, pos: int, v: Option<u32>)
    requires
        0 <= pos,
        pos + spec_print_opt_u32(v).len() <= s.len(),
        s.subrange(pos, pos + spec_print_opt_u32(v).len() as int) == spec_print_opt_u32(v),
        pos + spec_print_opt_u32(v).len() == s.len() || !is_digit(
            s[pos + spec_print_opt_u32(v).len() as int],
        ),
    ensures
        spec_parse_opt_u32(s, pos) == Some((v, pos + spec_print_opt_u32(v).len() as int)),
{
    let whole = spec_print_opt_u32(v);
    let l = whole.len() as int;
    reveal_strlit("null");
    match v {
        None => {
            assert(spec_match_lit(s, pos, "null"@));
        },
        Some(n) => {
            assert(s[pos + 0] == s.subrange(pos, pos + l)[0]);
            assert(s[pos] == whole[0]);
            lemma_print_nat_digits(n as nat);
            assert(is_digit(whole[0]));
            assert(s[pos] != 'n') by {
                assert(('n' as u32) == 110);
            }
            assert(!spec_match_lit(s, pos, "null"@)) by {
                if spec_match_lit(s, pos, "null"@) {
                    assert(s.subrange(pos, pos + 4)[0] == 'n');
                }
            }
            lemma_parse_print_nat(s, pos, n as nat);
        },
    }
}

/// Parsing right after printing an optional flag gives it back.
pub proof fn lemma_parse_print_opt_bool(s: Seq<char>, pos: int, v: Option<bool>)
    requires
        0 <= pos,
        pos + spec_print_opt_bool(v).len() <= s.len(),
        s.subrange(pos, pos + spec_print_opt_bool(v).len() as int) == spec_print_opt_bool(v),
    ensures
        spec_parse_opt_bool(s, pos) == Some((v, pos + spec_print_opt_bool(v).len() as int)),
{
    let whole = spec_print_opt_bool(v);
    let l = whole.len() as int;
    reveal_strlit("null");
    reveal_strlit("true");
    reveal_strlit("false");
    assert(s[pos + 0] == s.subrange(pos, pos + l)[0]);
    assert(s[pos] == whole[0]);
    match v {
        Some(true) => {
            assert(spec_match_lit(s, pos, "true"@));
        },
        Some(false) => {
            assert(!spec_match_lit(s, pos, "true"@)) by {
                if spec_match_lit(s, pos, "true"@) {
                    assert(s.subrange(pos, pos + 4)[0] == 't');
                    assert(('t' as u32) == 116 && ('f' as u32) == 102);
                }
            }
            assert(spec_match_lit(s, pos, "false"@));
        },
        None => {
            assert(!spec_match_lit(s, pos, "true"@)) by {
                if spec_match_lit(s, pos, "true"@) {
                    assert(s.subrange(pos, pos + 4)[0] == 't');
                    assert(('t' as u32) == 116 && ('n' as u32) == 110);
                }
            }
            assert(!spec_match_lit(s, pos, "false"@)) by {
                if spec_match_lit(s, pos, "false"@) {
                    assert(s.subrange(pos, pos + 5)[0] == 'f');
                    assert(('f' as u32) == 102 && ('n' as u32) == 110);
                }
            }
            assert(spec_match_lit(s, pos, "null"@));
        },
    }
}

/// Parsing right after printing an optional string list gives it back.
pub proof fn lemma_parse_print_opt_strings(s: Seq<char>, pos: int, v: Option<Seq<Seq<char>>>)
    requires
        0 <= pos,
        pos + spec_print_opt_strings(v).len() <= s.len(),
        s.subrange(pos, pos + spec_print_opt_strings(v).len() as int) == spec_print_opt_strings(
            v,
        ),
    ensures
        spec_parse_opt_strings(s, pos) == Some(
            (v, pos + spec_print_opt_strings(v).len() as int),
        ),
{
    let whole = spec_print_opt_strings(v);
    let l = whole.len() as int;
    reveal_strlit("null");
    reveal_strlit("[");
    match v {
        None => {
            assert(spec_match_lit(s, pos, "null"@));
        },
        Some(ss) => {
            assert(s[pos + 0] == s.subrange(pos, pos + l)[0]);
            assert(s[pos] == whole[0]);
            assert(whole[0] == '[');
            assert(s[pos] != 'n') by {
                assert(('n' as u32) == 110 && ('[' as u32) == 91);
            }
            assert(!spec_match_lit(s, pos, "null"@)) by {
                if spec_match_lit(s, pos, "null"@) {
                    assert(s.subrange(pos, pos + 4)[0] == 'n');
                }
            }
            lemma_parse_print_strings(s, pos, ss);
        },
    }
}

/// Reads a whole session record: every field, in the fixed order the
/// printer uses.
pub open spec fn spec_parse_chat(s: Seq<char>, pos: int) -> Option<(ChatView, int)> {
    if !spec_match_lit(s, pos, "{\"model\":"@) {
        None
    } else {
        match spec_parse_string(s, pos + "{\"model\":"@.len()) {
            None => None,
            Some((model, p2)) => {
                if !spec_match_lit(s, p2, ",\"messages\":"@) {
                    None
                } else {
                    match spec_parse_messages(s, p2 + ",\"messages\":"@.len()) {
                        None => None,
                        Some((messages, p4)) => {
                            if !spec_match_lit(s, p4, ",\"temperature\":"@) {
                                None
                            } else {
                                match spec_parse_opt_milli(s, p4 + ",\"temperature\":"@.len()) {
                                    None => None,
                                    Some((temperature, p6)) => {
                                        if !spec_match_lit(s, p6, ",\"top_p\":"@) {
                                            None
                                        } else {
                                            match spec_parse_opt_milli(
                                                s,
                                                p6 + ",\"top_p\":"@.len(),
                                            ) {
                                                None => None,
                                                Some((top_p, p8)) => spec_parse_chat_tail(
                                                    s,
                                                    p8,
                                                    model,
                                                    messages,
                                                    temperature,
                                                    top_p,
                                                ),
                                            }
                                        }
                                    },
                                }
                            }
                        },
                    }
                }
            },
        }
    }
}

/// The back half of the record, from the choice count on.
pub open spec fn spec_parse_chat_tail(
    s: Seq<char>,
    p8: int,
    model: Seq<char>,
    messages: Seq<MessageView>,
    temperature: Option<i64>,
    top_p: Option<i64>,
) -> Option<(ChatView, int)> {
    if !spec_match_lit(s, p8, ",\"n\":"@) {
        None
    } else {
        match spec_parse_opt_u32(s, p8 + ",\"n\":"@.len()) {
            None => None,
            Some((n, p10)) => {
                if !spec_match_lit(s, p10, ",\"stream\":"@) {
                    None
                } else {
                    match spec_parse_opt_bool(s, p10 + ",\"stream\":"@.len()) {
                        None => None,
                        Some((stream, p12)) => {
                            if !spec_match_lit(s, p12, ",\"stop\":"@) {
                                None
                            } else {
                                match spec_parse_opt_strings(s, p12 + ",\"stop\":"@.len()) {
                                    None => None,
                                    Some((stop, p14)) => {
                                        if !spec_match_lit(s, p14, ",\"max_tokens\":"@) {
                                            None
                                        } else {
                                            match spec_parse_opt_u32(
                                                s,
                                                p14 + ",\"max_tokens\":"@.len(),
                                            ) {
                                                None => None,
                                                Some((max_tokens, p16)) => {
                                                    if !spec_match_lit(
                                                        s,
                                                        p16,
                                                        ",\"presence_penalty\":"@,
                                                    ) {
                                                        None
                                                    } else {
                                                        match spec_parse_opt_milli(
                                                            s,
                                                            p16 + ",\"presence_penalty\":"@.len(),
                                                        ) {
                                                            None => None,
                                                            Some((presence_penalty, p18)) => {
                                                                if !spec_match_lit(
                                                                    s,
                                                                    p18,
                                                                    ",\"frequency_penalty\":"@,
                                                                ) {
                                                                    None
                                                                } else {
                                                                    match spec_parse_opt_milli(
                                                                        s,
                                                                        p18
                                                                            + ",\"frequency_penalty\":"@.len(),
                                                                    ) {
                                                                        None => None,
                                                                        Some(
                                                                            (frequency_penalty, p20),
                                                                        ) => {
                                                                            if spec_match_lit(
                                                                                s,
                                                                                p20,
                                                                                "}"@,
                                                                            ) {
                                                                                Some(
                                                                                    (
                                                                                        ChatView {
                                                                                            model,
                                                                                            messages,
                                                                                            temperature,
                                                                                            top_p,
                                                                                            n,
                                                                                            stream,
                                                                                            stop,
                                                                                            max_tokens,
                                                                                            presence_penalty,
                                                                                            frequency_penalty,
                                                                                        },
                                                                                        p20 + "}"@.len(),
                                                                                    ),
                                                                                )
                                                                            } else {
                                                                                None
                                                                            }
                                                                        },
                                                                    }
                                                                }
                                                            },
                                                        }
                                                    }
                                                },
                                            }
                                        }
                                    },
                                }
                            }
                        },
                    }
                }
            },
        }
    }
}

/// Parsing right after printing the back half gives the remaining fields
/// back.
#[verifier::rlimit(100)]
pub proof fn lemma_parse_print_chat_tail(s: Seq<char>, p8: int, c: ChatView)
    requires
        0 <= p8,
        p8 + spec_print_chat_tail(c).len() <= s.len(),
        s.subrange(p8, p8 + spec_print_chat_tail(c).len() as int) == spec_print_chat_tail(c),
    ensures
        spec_parse_chat_tail(s, p8, c.model, c.messages, c.temperature, c.top_p) == Some(
            (c, p8 + spec_print_chat_tail(c).len() as int),
        ),
{
    let whole = spec_print_chat_tail(c);
    let a5 = ",\"n\":"@;
    let s5 = spec_print_opt_u32(c.n);
    let a6 = ",\"stream\":"@;
    let s6 = spec_print_opt_bool(c.stream);
    let a7 = ",\"stop\":"@;
    let s7 = spec_print_opt_strings(c.stop);
    let a8 = ",\"max_tokens\":"@;
    let s8 = spec_print_opt_u32(c.max_tokens);
    let a9 = ",\"presence_penalty\":"@;
    let s9 = spec_print_opt_milli(c.presence_penalty);
    let a10 = ",\"frequency_penalty\":"@;
    let s10 = spec_print_opt_milli(c.frequency_penalty);
    let a11 = "}"@;
    reveal_strlit(",\"n\":");
    reveal_strlit(",\"stream\":");
    reveal_strlit(",\"stop\":");
    reveal_strlit(",\"max_tokens\":");
    reveal_strlit(",\"presence_penalty\":");
    reveal_strlit(",\"frequency_penalty\":");
    reveal_strlit("}");
    let o1 = a5.len() as int;
    let o2 = o1 + s5.len() as int;
    let o3 = o2 + a6.len() as int;
    let o4 = o3 + s6.len() as int;
    let o5 = o4 + a7.len() as int;
    let o6 = o5 + s7.len() as int;
    let o7 = o6 + a8.len() as int;
    let o8 = o7 + s8.len() as int;
    let o9 = o8 + a9.len() as int;
    let o10 = o9 + s9.len() as int;
    let o11 = o10 + a10.len() as int;
    let o12 = o11 + s10.len() as int;
    assert forall|i: int| 0 <= i < a5.len() implies whole[0 + i] == #[trigger] a5[i] by {}
    lemma_chunk(s, p8, whole, 0, a5);
    assert forall|i: int| 0 <= i < s5.len() implies whole[o1 + i] == #[trigger] s5[i] by {}
    lemma_chunk(s, p8, whole, o1, s5);
    assert forall|i: int| 0 <= i < a6.len() implies whole[o2 + i] == #[trigger] a6[i] by {}
    lemma_chunk(s, p8, whole, o2, a6);
    assert forall|i: int| 0 <= i < s6.len() implies whole[o3 + i] == #[trigger] s6[i] by {}
    lemma_chunk(s, p8, whole, o3, s6);
    assert forall|i: int| 0 <= i < a7.len() implies whole[o4 + i] == #[trigger] a7[i] by {}
    lemma_chunk(s, p8, whole, o4, a7);
    assert forall|i: int| 0 <= i < s7.len() implies whole[o5 + i] == #[trigger] s7[i] by {}
    lemma_chunk(s, p8, whole, o5, s7);
    assert forall|i: int| 0 <= i < a8.len() implies whole[o6 + i] == #[trigger] a8[i] by {}
    lemma_chunk(s, p8, whole, o6, a8);
    assert forall|i: int| 0 <= i < s8.len() implies whole[o7 + i] == #[trigger] s8[i] by {}
    lemma_chunk(s, p8, whole, o7, s8);
    assert forall|i: int| 0 <= i < a9.len() implies whole[o8 + i] == #[trigger] a9[i] by {}
    lemma_chunk(s, p8, whole, o8, a9);
    assert forall|i: int| 0 <= i < s9.len() implies whole[o9 + i] == #[trigger] s9[i] by {}
    lemma_chunk(s, p8, whole, o9, s9);
    assert forall|i: int| 0 <= i < a10.len() implies whole[o10 + i] == #[trigger] a10[i] by {}
    lemma_chunk(s, p8, whole, o10, a10);
    assert forall|i: int| 0 <= i < s10.len() implies whole[o11 + i] == #[trigger] s10[i] by {}
    lemma_chunk(s, p8, whole, o11, s10);
    assert forall|i: int| 0 <= i < a11.len() implies whole[o12 + i] == #[trigger] a11[i] by {}
    lemma_chunk(s, p8, whole, o12, a11);
    // each numeric field is followed by a comma or the closing brace
    assert(s[p8 + o2] == a6[0] && a6[0] == ',') by {
        assert(s[p8 + o2 + 0] == s.subrange(p8 + o2, p8 + o2 + a6.len() as int)[0]);
    }
    assert(s[p8 + o8] == a9[0] && a9[0] == ',') by {
        assert(s[p8 + o8 + 0] == s.subrange(p8 + o8, p8 + o8 + a9.len() as int)[0]);
    }
    assert(s[p8 + o10] == a10[0] && a10[0] == ',') by {
        assert(s[p8 + o10 + 0] == s.subrange(p8 + o10, p8 + o10 + a10.len() as int)[0]);
    }
    assert(s[p8 + o12] == a11[0] && a11[0] == '}') by {
        assert(s[p8 + o12 + 0] == s.subrange(p8 + o12, p8 + o12 + a11.len() as int)[0]);
    }
    assert(!is_digit(',') && ',' != '.') by {
        assert((',' as u32) == 44);
    }
    assert(!is_digit('}') && '}' != '.') by {
        assert(('}' as u32) == 125);
    }
    lemma_parse_print_opt_u32(s, p8 + o1, c.n);
    lemma_parse_print_opt_bool(s, p8 + o3, c.stream);
    lemma_parse_print_opt_strings(s, p8 + o5, c.stop);
    lemma_parse_print_opt_u32(s, p8 + o7, c.max_tokens);
    lemma_parse_print_opt_milli(s, p8 + o9, c.presence_penalty);
    lemma_parse_print_opt_milli(s, p8 + o11, c.frequency_penalty);
    assert(spec_parse_chat_tail(s, p8, c.model, c.messages, c.temperature, c.top_p) == Some(
        (
            ChatView {
                model: c.model,
                messages: c.messages,
                temperature: c.temperature,
                top_p: c.top_p,
                n: c.n,
                stream: c.stream,
                stop: c.stop,
                max_tokens: c.max_tokens,
                presence_penalty: c.presence_penalty,
                frequency_penalty: c.frequency_penalty,
            },
            p8 + o12 + 1,
        ),
    ));
    assert(ChatView {
        model: c.model,
        messages: c.messages,
        temperature: c.temperature,
        top_p: c.top_p,
        n: c.n,
        stream: c.stream,
        stop: c.stop,
        max_tokens: c.max_tokens,
        presence_penalty: c.presence_penalty,
        frequency_penalty: c.frequency_penalty,
    } == c);
}

/// Parsing right after printing a whole record gives the session back.
#[verifier::rlimit(100)]
pub proof fn lemma_parse_print_chat(s: Seq<char>, pos: int, c: ChatView)
    requires
        0 <= pos,
        pos + spec_print_chat(c).len() <= s.len(),
        s.subrange(pos, pos + spec_print_chat(c).len() as int) == spec_print_chat(c),
    ensures
        spec_parse_chat(s, pos) == Some((c, pos + spec_print_chat(c).len() as int)),
{
    let whole = spec_print_chat(c);
    let front = spec_print_chat_front(c);
    let tail = spec_print_chat_tail(c);
    let a1 = "{\"model\":"@;
    let s1 = spec_print_string(c.model);
    let a2 = ",\"messages\":"@;
    let s2 = spec_print_messages(c.messages);
    let a3 = ",\"temperature\":"@;
    let s3 = spec_print_opt_milli(c.temperature);
    let a4 = ",\"top_p\":"@;
    let s4 = spec_print_opt_milli(c.top_p);
    reveal_strlit("{\"model\":");
    reveal_strlit(",\"messages\":");
    reveal_strlit(",\"temperature\":");
    reveal_strlit(",\"top_p\":");
    reveal_strlit(",\"n\":");
    let o1 = a1.len() as int;
    let o2 = o1 + s1.len() as int;
    let o3 = o2 + a2.len() as int;
    let o4 = o3 + s2.len() as int;
    let o5 = o4 + a3.len() as int;
    let o6 = o5 + s3.len() as int;
    let o7 = o6 + a4.len() as int;
    let o8 = o7 + s4.len() as int;
    assert(front.len() == o8);
    assert forall|i: int| 0 <= i < a1.len() implies whole[0 + i] == #[trigger] a1[i] by {}
    lemma_chunk(s, pos, whole, 0, a1);
    assert forall|i: int| 0 <= i < s1.len() implies whole[o1 + i] == #[trigger] s1[i] by {}
    lemma_chunk(s, pos, whole, o1, s1);
    assert forall|i: int| 0 <= i < a2.len() implies whole[o2 + i] == #[trigger] a2[i] by {}
    lemma_chunk(s, pos, whole, o2, a2);
    assert forall|i: int| 0 <= i < s2.len() implies whole[o3 + i] == #[trigger] s2[i] by {}
    lemma_chunk(s, pos, whole, o3, s2);
    assert forall|i: int| 0 <= i < a3.len() implies whole[o4 + i] == #[trigger] a3[i] by {}
    lemma_chunk(s, pos, whole, o4, a3);
    assert forall|i: int| 0 <= i < s3.len() implies whole[o5 + i] == #[trigger] s3[i] by {}
    lemma_chunk(s, pos, whole, o5, s3);
    assert forall|i: int| 0 <= i < a4.len() implies whole[o6 + i] == #[trigger] a4[i] by {}
    lemma_chunk(s, pos, whole, o6, a4);
    assert forall|i: int| 0 <= i < s4.len() implies whole[o7 + i] == #[trigger] s4[i] by {}
    lemma_chunk(s, pos, whole, o7, s4);
    assert forall|i: int| 0 <= i < tail.len() implies whole[o8 + i] == #[trigger] tail[i] by {}
    lemma_chunk(s, pos, whole, o8, tail);
    // the sampling shares are each followed by a comma
    assert(s[pos + o4] == a3[0] && a3[0] == ',') by {
        assert(s[pos + o4 + 0] == s.subrange(pos + o4, pos + o4 + a3.len() as int)[0]);
    }
    assert(s[pos + o6] == a4[0] && a4[0] == ',') by {
        assert(s[pos + o6 + 0] == s.subrange(pos + o6, pos + o6 + a4.len() as int)[0]);
    }
    assert(s[pos + o8] == tail[0] && tail[0] == ',') by {
        assert(s[pos + o8 + 0] == s.subrange(pos + o8, pos + o8 + tail.len() as int)[0]);
    }
    assert(!is_digit(',') && ',' != '.') by {
        assert((',' as u32) == 44);
    }
    lemma_parse_print_string(s, pos + o1, c.model);
    lemma_parse_print_messages(s, pos + o3, c.messages);
    lemma_parse_print_opt_milli(s, pos + o5, c.temperature);
    lemma_parse_print_opt_milli(s, pos + o7, c.top_p);
    lemma_parse_print_chat_tail(s, pos + o8, c);
    assert(spec_parse_chat(s, pos) == Some((c, pos + o8 + tail.len())));
}

/// The round trip: a serialized session record, read back, is the same
/// session — parameters, messages and their order all preserved.
#[verifier::rlimit(100)]
pub proof fn lemma_chat_json_round_trip(c: ChatView)
    ensures
        spec_chat_of_json(spec_print_chat(c)) == Some(c),
{
    let s = spec_print_chat(c);
    assert(s.subrange(0, s.len() as int) =~= s);
    lemma_parse_print_chat(s, 0, c);
}

/// What a whole serialized record denotes: a session, where the text is
/// exactly one record.
pub open spec fn spec_chat_of_json(s: Seq<char>) -> Option<ChatView> {
    match spec_parse_chat(s, 0) {
        None => None,
        Some((c, e)) => {
            if e == s.len() {
                Some(c)
            } else {
                None
            }
        },
    }
}

// ---------------------------------------------------------------------------
// the executable parser
// ---------------------------------------------------------------------------

/// Compares the text at `pos` with a literal, executable.
pub fn expect_lit(s: &Vec<char>, pos: usize, lit: &str) -> (r: Option<usize>)
    requires
        pos <= s@.len(),
    ensures
        match r {
            Some(p) => spec_match_lit(s@, pos as int, lit@) && p as int == pos + lit@.len() && pos
                <= p <= s@.len(),
            None => !spec_match_lit(s@, pos as int, lit@),
        },
{
    let cs = str_to_chars(lit);
    let n = s.len();
    if cs.len() > n - pos {
        return None;
    }
    let mut i: usize = 0;
    while i < cs.len()
        invariant
            i <= cs@.len(),
            cs@ == lit@,
            n == s@.len(),
            pos + cs@.len() <= n,
            forall|j: int| 0 <= j < i ==> s@[pos + j] == #[trigger] cs@[j],
        decreases cs@.len() - i,
    {
        if s[pos + i] != cs[i] {
            proof {
                if spec_match_lit(s@, pos as int, lit@) {
                    assert(s@.subrange(pos as int, pos + lit@.len() as int)[i as int]
                        == lit@[i as int]);
                }
            }
            return None;
        }
        i += 1;
    }
    proof {
        assert forall|j: int| 0 <= j < lit@.len() implies s@.subrange(
            pos as int,
            pos + lit@.len() as int,
        )[j] == lit@[j] by {
            assert(s@[pos + j] == cs@[j]);
        }
        assert(s@.subrange(pos as int, pos + lit@.len() as int) =~= lit@);
    }
    Some(pos + cs.len())
}

/// Reads a role name, executable.
pub fn parse_role_ex(s: &Vec<char>, pos: usize) -> (r: Option<(Role, usize)>)
    requires
        pos <= s@.len(),
    ensures
        match r {
            Some((role, p)) => spec_parse_role(s@, pos as int) == Some((role, p as int)) && pos
                <= p <= s@.len(),
            None => spec_parse_role(s@, pos as int) is None,
        },
{
    match expect_lit(s, pos, "user") {
        Some(p) => {
            return Some((Role::User, p));
        },
        None => {},
    }
    match expect_lit(s, pos, "system") {
        Some(p) => {
            return Some((Role::System, p));
        },
        None => {},
    }
    match expect_lit(s, pos, "assistant") {
        Some(p) => {
            return Some((Role::Assistant, p));
        },
        None => {},
    }
    None
}

/// Reads one message object, executable.
pub fn parse_message_ex(s: &Vec<char>, pos: usize) -> (r: Option<(ChatMessage, usize)>)
    requires
        pos <= s@.len(),
    ensures
        match r {
            Some((m, p)) => spec_parse_message(s@, pos as int) == Some((m@, p as int)) && pos < p
                <= s@.len(),
            None => spec_parse_message(s@, pos as int) is None,
        },
{
    let p1 = match expect_lit(s, pos, "{\"role\":\"") {
        Some(p) => p,
        None => {
            return None;
        },
    };
    let (role, p2) = match parse_role_ex(s, p1) {
        Some(v) => v,
        None => {
            return None;
        },
    };
    let p3 = match expect_lit(s, p2, "\",\"content\":") {
        Some(p) => p,
        None => {
            return None;
        },
    };
    let (content_chars, p4) = match parse_string_ex(s, p3) {
        Some(v) => v,
        None => {
            return None;
        },
    };
    let p5 = match expect_lit(s, p4, "}") {
        Some(p) => p,
        None => {
            return None;
        },
    };
    let content = chars_to_string(&content_chars);
    let m = ChatMessage { role, content };
    proof {
        reveal_strlit("}");
    }
    Some((m, p5))
}

/// Reads a whole message list, executable.
pub fn parse_messages_ex(s: &Vec<char>, pos: usize) -> (r: Option<(Vec<ChatMessage>, usize)>)
    requires
        pos <= s@.len(),
    ensures
        match r {
            Some((ms, p)) => spec_parse_messages(s@, pos as int) == Some(
                (Seq::new(ms@.len(), |i: int| ms@[i]@), p as int),
            ) && pos < p <= s@.len(),
            None => spec_parse_messages(s@, pos as int) is None,
        },
{
    let p0 = match expect_lit(s, pos, "[") {
        Some(p) => p,
        None => {
            return None;
        },
    };
    proof {
        reveal_strlit("[");
    }
    let p1 = p0;
    if p1 < s.len() && s[p1] == ']' {
        let ms: Vec<ChatMessage> = Vec::new();
        proof {
            assert(Seq::new(0, |i: int| ms@[i]@) =~= Seq::<MessageView>::empty());
        }
        return Some((ms, p1 + 1));
    }
    let (m0, p2) = match parse_message_ex(s, p1) {
        Some(v) => v,
        None => {
            return None;
        },
    };
    let mut acc: Vec<ChatMessage> = Vec::new();
    acc.push(m0);
    let mut cur: usize = p2;
    proof {
        assert(Seq::new(acc@.len(), |i: int| acc@[i]@) =~= seq![m0@]);
    }
    loop
        invariant
            pos < cur <= s@.len(),
            acc@.len() >= 1,
            match spec_parse_messages_rest(s@, cur as int) {
                Some((ms, e)) => spec_parse_messages(s@, pos as int) == Some(
                    (Seq::new(acc@.len(), |i: int| acc@[i]@) + ms, e),
                ),
                None => spec_parse_messages(s@, pos as int) is None,
            },
        decreases s@.len() - cur,
    {
        if cur >= s.len() {
            return None;
        }
        if s[cur] == ']' {
            proof {
                assert(spec_parse_messages_rest(s@, cur as int) == Some(
                    (Seq::<MessageView>::empty(), cur + 1),
                ));
                assert(Seq::new(acc@.len(), |i: int| acc@[i]@) + Seq::<MessageView>::empty()
                    =~= Seq::new(acc@.len(), |i: int| acc@[i]@));
            }
            return Some((acc, cur + 1));
        }
        if s[cur] != ',' {
            return None;
        }
        let ghost pre = Seq::new(acc@.len(), |i: int| acc@[i]@);
        let (m, p) = match parse_message_ex(s, cur + 1) {
            Some(v) => v,
            None => {
                return None;
            },
        };
        acc.push(m);
        proof {
            assert(Seq::new(acc@.len(), |i: int| acc@[i]@) =~= pre.push(m@));
            match spec_parse_messages_rest(s@, p as int) {
                Some((ms, e)) => {
                    assert(spec_parse_messages_rest(s@, cur as int) == Some((seq![m@] + ms, e)));
                    assert(pre + (seq![m@] + ms) =~= pre.push(m@) + ms);
                },
                None => {
                    assert(spec_parse_messages_rest(s@, cur as int) is None);
                },
            }
        }
        cur = p;
    }
}

/// Reads a whole string list, executable.
pub fn parse_strings_ex(s: &Vec<char>, pos: usize) -> (r: Option<(Vec<String>, usize)>)
    requires
        pos <= s@.len(),
    ensures
        match r {
            Some((vs, p)) => spec_parse_strings(s@, pos as int) == Some(
                (Seq::new(vs@.len(), |i: int| vs@[i]@), p as int),
            ) && pos < p <= s@.len(),
            None => spec_parse_strings(s@, pos as int) is None,
        },
{
    let p0 = match expect_lit(s, pos, "[") {
        Some(p) => p,
        None => {
            return None;
        },
    };
    proof {
        reveal_strlit("[");
    }
    let p1 = p0;
    if p1 < s.len() && s[p1] == ']' {
        let vs: Vec<String> = Vec::new();
        proof {
            assert(Seq::new(0, |i: int| vs@[i]@) =~= Seq::<Seq<char>>::empty());
        }
        return Some((vs, p1 + 1));
    }
    let (v0, p2) = match parse_string_ex(s, p1) {
        Some(v) => v,
        None => {
            return None;
        },
    };
    let mut acc: Vec<String> = Vec::new();
    acc.push(chars_to_string(&v0));
    let mut cur: usize = p2;
    proof {
        assert(Seq::new(acc@.len(), |i: int| acc@[i]@) =~= seq![v0@]);
    }
    loop
        invariant
            pos < cur <= s@.len(),
            acc@.len() >= 1,
            match spec_parse_strs_rest(s@, cur as int) {
                Some((vs, e)) => spec_parse_strings(s@, pos as int) == Some(
                    (Seq::new(acc@.len(), |i: int| acc@[i]@) + vs, e),
                ),
                None => spec_parse_strings(s@, pos as int) is None,
            },
        decreases s@.len() - cur,
    {
        if cur >= s.len() {
            return None;
        }
        if s[cur] == ']' {
            proof {
                assert(spec_parse_strs_rest(s@, cur as int) == Some(
                    (Seq::<Seq<char>>::empty(), cur + 1),
                ));
                assert(Seq::new(acc@.len(), |i: int| acc@[i]@) + Seq::<Seq<char>>::empty()
                    =~= Seq::new(acc@.len(), |i: int| acc@[i]@));
            }
            return Some((acc, cur + 1));
        }
        if s[cur] != ',' {
            return None;
        }
        let ghost pre = Seq::new(acc@.len(), |i: int| acc@[i]@);
        let (v, p) = match parse_string_ex(s, cur + 1) {
            Some(v) => v,
            None => {
                return None;
            },
        };
        acc.push(chars_to_string(&v));
        proof {
            assert(Seq::new(acc@.len(), |i: int| acc@[i]@) =~= pre.push(v@));
            match spec_parse_strs_rest(s@, p as int) {
                Some((vs, e)) => {
                    assert(spec_parse_strs_rest(s@, cur as int) == Some((seq![v@] + vs, e)));
                    assert(pre + (seq![v@] + vs) =~= pre.push(v@) + vs);
                },
                None => {
                    assert(spec_parse_strs_rest(s@, cur as int) is None);
                },
            }
        }
        cur = p;
    }
}

/// Reads an optional thousandths value, executable.
pub fn parse_opt_milli_ex(s: &Vec<char>, pos: usize) -> (r: Option<(Option<i64>, usize)>)
    requires
        pos <= s@.len(),
    ensures
        match r {
            Some((v, p)) => spec_parse_opt_milli(s@, pos as int) == Some((v, p as int)) && pos < p
                <= s@.len(),
            None => spec_parse_opt_milli(s@, pos as int) is None,
        },
{
    match expect_lit(s, pos, "null") {
        Some(p) => {
            proof {
                reveal_strlit("null");
            }
            return Some((None, p));
        },
        None => {},
    }
    match parse_milli(s, pos) {
        Some((v, p)) => Some((Some(v), p)),
        None => None,
    }
}

/// Reads an optional count, executable.
pub fn parse_opt_u32_ex(s: &Vec<char>, pos: usize) -> (r: Option<(Option<u32>, usize)>)
    requires
        pos <= s@.len(),
    ensures
        match r {
            Some((v, p)) => spec_parse_opt_u32(s@, pos as int) == Some((v, p as int)) && pos < p
                <= s@.len(),
            None => spec_parse_opt_u32(s@, pos as int) is None,
        },
{
    match expect_lit(s, pos, "null") {
        Some(p) => {
            proof {
                reveal_strlit("null");
            }
            return Some((None, p));
        },
        None => {},
    }
    match parse_nat(s, pos) {
        Some((v, p)) => {
            if v <= u32::MAX as u64 {
                Some((Some(v as u32), p))
            } else {
                None
            }
        },
        None => {
            proof {
                match spec_parse_nat(s@, pos as int) {
                    Some((v, _)) => {
                        assert(v > u64::MAX);
                    },
                    None => {},
                }
            }
            None
        },
    }
}

/// Reads an optional flag, executable.
pub fn parse_opt_bool_ex(s: &Vec<char>, pos: usize) -> (r: Option<(Option<bool>, usize)>)
    requires
        pos <= s@.len(),
    ensures
        match r {
            Some((v, p)) => spec_parse_opt_bool(s@, pos as int) == Some((v, p as int)) && pos < p
                <= s@.len(),
            None => spec_parse_opt_bool(s@, pos as int) is None,
        },
{
    match expect_lit(s, pos, "true") {
        Some(p) => {
            proof {
                reveal_strlit("true");
            }
            return Some((Some(true), p));
        },
        None => {},
    }
    match expect_lit(s, pos, "false") {
        Some(p) => {
            proof {
                reveal_strlit("false");
            }
            return Some((Some(false), p));
        },
        None => {},
    }
    match expect_lit(s, pos, "null") {
        Some(p) => {
            proof {
                reveal_strlit("null");
            }
            return Some((None, p));
        },
        None => {},
    }
    None
}

/// Reads the optional stop-sequence list, executable.
pub fn parse_opt_strings_ex(s: &Vec<char>, pos: usize) -> (r: Option<
    (Option<Vec<String>>, usize),
>)
    requires
        pos <= s@.len(),
    ensures
        match r {
            Some((v, p)) => ({
                let vv = match v {
                    Some(ref vs) => Some(Seq::new(vs@.len(), |i: int| vs@[i]@)),
                    None => None,
                };
                spec_parse_opt_strings(s@, pos as int) == Some((vv, p as int)) && pos < p
                    <= s@.len()
            }),
            None => spec_parse_opt_strings(s@, pos as int) is None,
        },
{
    match expect_lit(s, pos, "null") {
        Some(p) => {
            proof {
                reveal_strlit("null");
            }
            return Some((None, p));
        },
        None => {},
    }
    match parse_strings_ex(s, pos) {
        Some((vs, p)) => Some((Some(vs), p)),
        None => None,
    }
}

/// Reads the back half of a record, executable.
#[verifier::rlimit(100)]
fn parse_chat_tail_ex(
    s: &Vec<char>,
    p8: usize,
    model: String,
    messages: Vec<ChatMessage>,
    temperature: Option<i64>,
    top_p: Option<i64>,
) -> (r: Option<(Chat, usize)>)
    requires
        p8 <= s@.len(),
    ensures
        match r {
            Some((c, p)) => spec_parse_chat_tail(
                s@,
                p8 as int,
                model@,
                Seq::new(messages@.len(), |i: int| messages@[i]@),
                temperature,
                top_p,
            ) == Some((c@, p as int)) && p <= s@.len(),
            None => spec_parse_chat_tail(
                s@,
                p8 as int,
                model@,
                Seq::new(messages@.len(), |i: int| messages@[i]@),
                temperature,
                top_p,
            ) is None,
        },
{
    let p9 = match expect_lit(s, p8, ",\"n\":") {
        Some(p) => p,
        None => {
            return None;
        },
    };
    let (n, p10) = match parse_opt_u32_ex(s, p9) {
        Some(v) => v,
        None => {
            return None;
        },
    };
    let p11 = match expect_lit(s, p10, ",\"stream\":") {
        Some(p) => p,
        None => {
            return None;
        },
    };
    let (stream, p12) = match parse_opt_bool_ex(s, p11) {
        Some(v) => v,
        None => {
            return None;
        },
    };
    let p13 = match expect_lit(s, p12, ",\"stop\":") {
        Some(p) => p,
        None => {
            return None;
        },
    };
    let (stop, p14) = match parse_opt_strings_ex(s, p13) {
        Some(v) => v,
        None => {
            return None;
        },
    };
    let p15 = match expect_lit(s, p14, ",\"max_tokens\":") {
        Some(p) => p,
        None => {
            return None;
        },
    };
    let (max_tokens, p16) = match parse_opt_u32_ex(s, p15) {
        Some(v) => v,
        None => {
            return None;
        },
    };
    let p17 = match expect_lit(s, p16, ",\"presence_penalty\":") {
        Some(p) => p,
        None => {
            return None;
        },
    };
    let (presence_penalty, p18) = match parse_opt_milli_ex(s, p17) {
        Some(v) => v,
        None => {
            return None;
        },
    };
    let p19 = match expect_lit(s, p18, ",\"frequency_penalty\":") {
        Some(p) => p,
        None => {
            return None;
        },
    };
    let (frequency_penalty, p20) = match parse_opt_milli_ex(s, p19) {
        Some(v) => v,
        None => {
            return None;
        },
    };
    let p21 = match expect_lit(s, p20, "}") {
        Some(p) => p,
        None => {
            return None;
        },
    };
    let c = Chat {
        model,
        messages,
        temperature,
        top_p,
        n,
        stream,
        stop,
        max_tokens,
        presence_penalty,
        frequency_penalty,
    };
    proof {
        assert(c@ =~= ChatView {
            model: c.model@,
            messages: Seq::new(c.messages@.len(), |i: int| c.messages@[i]@),
            temperature,
            top_p,
            n,
            stream,
            stop: match c.stop {
                Some(ref ss) => Some(Seq::new(ss@.len(), |i: int| ss@[i]@)),
                None => None,
            },
            max_tokens,
            presence_penalty,
            frequency_penalty,
        });
    }
    Some((c, p21))
}

/// Reads one whole record, executable.
fn parse_chat_ex(s: &Vec<char>) -> (r: Option<(Chat, usize)>)
    ensures
        match r {
            Some((c, p)) => spec_parse_chat(s@, 0) == Some((c@, p as int)) && p <= s@.len(),
            None => spec_parse_chat(s@, 0) is None,
        },
{
    let p0 = match expect_lit(s, 0, "{\"model\":") {
        Some(p) => p,
        None => {
            return None;
        },
    };
    let (model_chars, p2) = match parse_string_ex(s, p0) {
        Some(v) => v,
        None => {
            return None;
        },
    };
    let model = chars_to_string(&model_chars);
    let p3 = match expect_lit(s, p2, ",\"messages\":") {
        Some(p) => p,
        None => {
            return None;
        },
    };
    let (messages, p4) = match parse_messages_ex(s, p3) {
        Some(v) => v,
        None => {
            return None;
        },
    };
    let p5 = match expect_lit(s, p4, ",\"temperature\":") {
        Some(p) => p,
        None => {
            return None;
        },
    };
    let (temperature, p6) = match parse_opt_milli_ex(s, p5) {
        Some(v) => v,
        None => {
            return None;
        },
    };
    let p7 = match expect_lit(s, p6, ",\"top_p\":") {
        Some(p) => p,
        None => {
            return None;
        },
    };
    let (top_p, p8) = match parse_opt_milli_ex(s, p7) {
        Some(v) => v,
        None => {
            return None;
        },
    };
    parse_chat_tail_ex(s, p8, model, messages, temperature, top_p)
}

/// Reads a serialized session record back; the text must be exactly one
/// canonical record.
pub fn chat_from_json(s: &str) -> (r: Option<Chat>)
    ensures
        match r {
            Some(c) => spec_chat_of_json(s@) == Some(c@),
            None => spec_chat_of_json(s@) is None,
        },
{
    let cs = str_to_chars(s);
    match parse_chat_ex(&cs) {
        Some((c, p)) => {
            if p == cs.len() {
                Some(c)
            } else {
                None
            }
        },
        None => None,
    }
}

} // verus!
