//! JSON text encoding of boundary objects.
//!
//! Boundary objects travel as one compact JSON object per line.  The
//! delicate part of writing that text is string escaping; it is specified
//! here together with its inverse, and the inverse is proved to recover
//! every string exactly, so nothing is lost between a record and its wire
//! form.

use vstd::prelude::*;

verus! {

/// The hexadecimal digit of a value below 16, lower case.
pub open spec fn spec_hex_digit(n: int) -> char {
    if n < 10 {
        ((48 + n) as u32) as char
    } else {
        ((87 + n) as u32) as char
    }
}

/// The numeric value of a lower-case hexadecimal digit, or -1.
pub open spec fn spec_hex_val(c: char) -> int {
    if 48 <= c as u32 <= 57 {
        c as u32 - 48
    } else if 97 <= c as u32 <= 102 {
        c as u32 - 87
    } else {
        -1
    }
}

/// The JSON escape of one character: the two-character escapes for quotes,
/// backslashes and the common control characters, a `\u00..` escape for the
/// remaining control characters, and the character itself otherwise.
pub open spec fn spec_escape_char(c: char) -> Seq<char> {
    if c == '"' {
        seq!['\\', '"']
    } else if c == '\\' {
        seq!['\\', '\\']
    } else if c == '\n' {
        seq!['\\', 'n']
    } else if c == '\r' {
        seq!['\\', 'r']
    } else if c == '\t' {
        seq!['\\', 't']
    } else if (c as u32) < 32 {
        seq!['\\', 'u', '0', '0', spec_hex_digit(c as u32 as int / 16), spec_hex_digit(
            c as u32 as int % 16,
        )]
    } else {
        seq![c]
    }
}

/// The JSON escape of a string body.
pub open spec fn spec_escape(s: Seq<char>) -> Seq<char>
    decreases s.len(),
{
    if s.len() == 0 {
        Seq::empty()
    } else {
        spec_escape(s.drop_last()) + spec_escape_char(s.last())
    }
}

/// The inverse of `spec_escape`: parse an escaped string body back into the
/// original characters.  Malformed input yields `None`.
pub open spec fn spec_unescape(s: Seq<char>) -> Option<Seq<char>>
    decreases s.len(),
{
    if s.len() == 0 {
        Some(Seq::empty())
    } else if s[0] == '\\' {
        if s.len() >= 2 && (s[1] == '"' || s[1] == '\\') {
            match spec_unescape(s.skip(2)) {
                Some(rest) => Some(seq![s[1]] + rest),
                None => None,
            }
        } else if s.len() >= 2 && s[1] == 'n' {
            match spec_unescape(s.skip(2)) {
                Some(rest) => Some(seq!['\n'] + rest),
                None => None,
            }
        } else if s.len() >= 2 && s[1] == 'r' {
            match spec_unescape(s.skip(2)) {
                Some(rest) => Some(seq!['\r'] + rest),
                None => None,
            }
        } else if s.len() >= 2 && s[1] == 't' {
            match spec_unescape(s.skip(2)) {
                Some(rest) => Some(seq!['\t'] + rest),
                None => None,
            }
        } else if s.len() >= 6 && s[1] == 'u' && s[2] == '0' && s[3] == '0' && spec_hex_val(s[4])
            >= 0 && spec_hex_val(s[5]) >= 0 {
            match spec_unescape(s.skip(6)) {
                Some(rest) => Some(
                    seq![(((spec_hex_val(s[4]) * 16 + spec_hex_val(s[5])) as u32) as char)] + rest,
                ),
                None => None,
            }
        } else {
            None
        }
    } else {
        match spec_unescape(s.drop_first()) {
            Some(rest) => Some(seq![s[0]] + rest),
            None => None,
        }
    }
}

/// Escaping one character and parsing it back yields that character before
/// whatever follows.
proof fn lemma_unescape_step(c: char, rest: Seq<char>)
    requires
        spec_unescape(rest) is Some,
    ensures
        spec_unescape(spec_escape_char(c) + rest) == Some(seq![c] + spec_unescape(rest)->0),
    decreases spec_escape_char(c).len(),
{
    let e = spec_escape_char(c) + rest;
    if c == '"' || c == '\\' {
        assert(e.skip(2) =~= rest);
        assert(seq![e[1]] + spec_unescape(rest)->0 =~= seq![c] + spec_unescape(rest)->0);
    } else if c == '\n' || c == '\r' || c == '\t' {
        assert(e.skip(2) =~= rest);
    } else if (c as u32) < 32 {
        let u = c as u32 as int;
        assert(e.skip(6) =~= rest);
        assert(spec_hex_val(spec_hex_digit(u / 16)) == u / 16);
        assert(spec_hex_val(spec_hex_digit(u % 16)) == u % 16);
        assert((u / 16) * 16 + u % 16 == u);
        assert((((u / 16) * 16 + u % 16) as u32) as char == c);
    } else {
        assert(e[0] == c);
        assert(e[0] != '\\');
        assert(e.drop_first() =~= rest);
    }
}

/// Escaping never loses information: parsing an escaped string body yields
/// exactly the original string.  This is what keeps a record identical
/// through its wire form and back.
pub proof fn lemma_escape_roundtrip(s: Seq<char>)
    ensures
        spec_unescape(spec_escape(s)) == Some(s),
    decreases s.len(),
{
    if s.len() == 0 {
        assert(spec_escape(s) =~= Seq::<char>::empty());
        assert(spec_unescape(spec_escape(s)) == Some(Seq::<char>::empty()));
        assert(Seq::<char>::empty() =~= s);
    } else {
        lemma_escape_front(s);
        lemma_escape_roundtrip(s.drop_first());
        lemma_unescape_step(s[0], spec_escape(s.drop_first()));
        assert(seq![s[0]] + s.drop_first() =~= s);
    }
}

/// The escape of a string is the escape of its head followed by the escape
/// of its tail.
proof fn lemma_escape_front(s: Seq<char>)
    requires
        s.len() > 0,
    ensures
        spec_escape(s) == spec_escape_char(s[0]) + spec_escape(s.drop_first()),
    decreases s.len(),
{
    if s.len() == 1 {
        assert(s.drop_last() =~= Seq::<char>::empty());
        assert(s.drop_first() =~= Seq::<char>::empty());
        assert(spec_escape(s) =~= spec_escape_char(s[0]) + spec_escape(s.drop_first()));
    } else {
        lemma_escape_front(s.drop_last());
        assert(s.drop_last()[0] == s[0]);
        assert(s.drop_last().drop_first() =~= s.drop_first().drop_last());
        assert(s.drop_first().last() == s.last());
        assert(spec_escape(s) == spec_escape(s.drop_last()) + spec_escape_char(s.last()));
        assert(spec_escape_char(s[0]) + spec_escape(s.drop_first()) =~= spec_escape_char(s[0]) + (
        spec_escape(s.drop_first().drop_last()) + spec_escape_char(s.last())));
        assert(spec_escape(s.drop_last()) + spec_escape_char(s.last()) =~= (spec_escape_char(s[0])
            + spec_escape(s.drop_last().drop_first())) + spec_escape_char(s.last()));
        assert((spec_escape_char(s[0]) + spec_escape(s.drop_last().drop_first()))
            + spec_escape_char(s.last()) =~= spec_escape_char(s[0]) + (spec_escape(
            s.drop_first().drop_last(),
        ) + spec_escape_char(s.last())));
    }
}

fn hex_digit_str(n: u32) -> (r: &'static str)
    requires
        n < 16,
    ensures
        r@ == seq![spec_hex_digit(n as int)],
{
    proof {
        reveal_strlit("0");
        reveal_strlit("1");
        reveal_strlit("2");
        reveal_strlit("3");
        reveal_strlit("4");
        reveal_strlit("5");
        reveal_strlit("6");
        reveal_strlit("7");
        reveal_strlit("8");
        reveal_strlit("9");
        reveal_strlit("a");
        reveal_strlit("b");
        reveal_strlit("c");
        reveal_strlit("d");
        reveal_strlit("e");
        reveal_strlit("f");
    }
    if n == 0 {
        "0"
    } else if n == 1 {
        "1"
    } else if n == 2 {
        "2"
    } else if n == 3 {
        "3"
    } else if n == 4 {
        "4"
    } else if n == 5 {
        "5"
    } else if n == 6 {
        "6"
    } else if n == 7 {
        "7"
    } else if n == 8 {
        "8"
    } else if n == 9 {
        "9"
    } else if n == 10 {
        "a"
    } else if n == 11 {
        "b"
    } else if n == 12 {
        "c"
    } else if n == 13 {
        "d"
    } else if n == 14 {
        "e"
    } else {
        "f"
    }
}

/// Escape a string body for embedding in JSON text.
pub fn json_escape(s: &str) -> (r: String)
    ensures
        r@ == spec_escape(s@),
{
    let n = s.unicode_len();
    let mut r = String::new();
    let mut i: usize = 0;
    proof {
        assert(s@.take(0) =~= Seq::<char>::empty());
    }
    while i < n
        invariant
            n == s@.len(),
            0 <= i <= n,
            r@ == spec_escape(s@.take(i as int)),
        decreases n - i,
    {
        let c = s.get_char(i);
        proof {
            assert(s@.take(i + 1).drop_last() =~= s@.take(i as int));
            assert(s@.take(i + 1).last() == s@[i as int]);
        }
        let ghost old_r = r@;
        if c == '"' {
            r.append("\\\"");
            proof {
                reveal_strlit("\\\"");
                assert("\\\""@ =~= spec_escape_char(c));
            }
        } else if c == '\\' {
            r.append("\\\\");
            proof {
                reveal_strlit("\\\\");
                assert("\\\\"@ =~= spec_escape_char(c));
            }
        } else if c == '\n' {
            r.append("\\n");
            proof {
                reveal_strlit("\\n");
                assert("\\n"@ =~= spec_escape_char(c));
            }
        } else if c == '\r' {
            r.append("\\r");
            proof {
                reveal_strlit("\\r");
                assert("\\r"@ =~= spec_escape_char(c));
            }
        } else if c == '\t' {
            r.append("\\t");
            proof {
                reveal_strlit("\\t");
                assert("\\t"@ =~= spec_escape_char(c));
            }
        } else if (c as u32) < 32 {
            let u = c as u32;
            r.append("\\u00");
            let hi = hex_digit_str(u / 16);
            let lo = hex_digit_str(u % 16);
            r.append(hi);
            r.append(lo);
            proof {
                reveal_strlit("\\u00");
                assert(((old_r + "\\u00"@) + hi@) + lo@ =~= old_r + spec_escape_char(c));
            }
        } else {
            let piece = s.substring_char(i, i + 1);
            r.append(piece);
            proof {
                assert(piece@ =~= seq![c]);
                assert(seq![c] =~= spec_escape_char(c));
            }
        }
        i = i + 1;
    }
    proof {
        assert(s@.take(n as int) =~= s@);
    }
    r
}

/// A JSON string literal: the escaped body in quotes.
pub open spec fn spec_json_string(s: Seq<char>) -> Seq<char> {
    seq!['"'] + spec_escape(s) + seq!['"']
}

/// Write a JSON string literal.
pub fn json_string(s: &str) -> (r: String)
    ensures
        r@ == spec_json_string(s@),
{
    let r = String::from_str("\"").concat(json_escape(s).as_str()).concat("\"");
    proof {
        reveal_strlit("\"");
        assert("\""@ =~= seq!['"']);
        assert(r@ =~= spec_json_string(s@));
    }
    r
}

/// An optional JSON string: `null` when absent.
pub open spec fn spec_json_opt_string(v: Option<String>) -> Seq<char> {
    match v {
        Some(s) => spec_json_string(s@),
        None => "null"@,
    }
}

/// Write an optional JSON string.
pub fn json_opt_string(v: &Option<String>) -> (r: String)
    ensures
        r@ == spec_json_opt_string(*v),
{
    match v {
        Some(s) => json_string(s.as_str()),
        None => String::from_str("null"),
    }
}

/// The decimal digits of a non-negative number.
pub open spec fn spec_digits_string(n: int) -> Seq<char>
    decreases n,
{
    if n < 10 {
        seq![spec_hex_digit(n)]
    } else {
        spec_digits_string(n / 10) + seq![spec_hex_digit(n % 10)]
    }
}

/// An optional JSON integer: `null` when absent, else the signed decimal
/// digits.
pub open spec fn spec_json_opt_i64(v: Option<i64>) -> Seq<char> {
    match v {
        None => "null"@,
        Some(x) => if x < 0 {
            seq!['-'] + spec_digits_string(-(x as int))
        } else {
            spec_digits_string(x as int)
        },
    }
}

fn digits_string(n: u64) -> (r: String)
    ensures
        r@ == spec_digits_string(n as int),
    decreases n,
{
    if n < 10 {
        hex_digit_str(n as u32).to_owned()
    } else {
        let r = digits_string(n / 10).concat(hex_digit_str((n % 10) as u32));
        proof {
            assert(r@ =~= spec_digits_string(n as int));
        }
        r
    }
}

/// Write an optional JSON integer.
pub fn json_opt_i64(v: &Option<i64>) -> (r: String)
    ensures
        r@ == spec_json_opt_i64(*v),
{
    match v {
        None => String::from_str("null"),
        Some(x) => {
            if *x < 0 {
                let magnitude: u64 = if *x == i64::MIN {
                    9223372036854775808u64
                } else {
                    (-*x) as u64
                };
                let r = String::from_str("-").concat(digits_string(magnitude).as_str());
                proof {
                    reveal_strlit("-");
                    assert("-"@ =~= seq!['-']);
                    assert(magnitude as int == -(*x as int));
                    assert(r@ =~= seq!['-'] + spec_digits_string(-(*x as int)));
                }
                r
            } else {
                digits_string(*x as u64)
            }
        },
    }
}

/// The comma-joined items of a JSON array of strings.
pub open spec fn spec_json_string_items(l: Seq<Seq<char>>) -> Seq<char>
    decreases l.len(),
{
    if l.len() == 0 {
        Seq::empty()
    } else if l.len() == 1 {
        spec_json_string(l[0])
    } else {
        spec_json_string_items(l.drop_last()) + ","@ + spec_json_string(l.last())
    }
}

/// A JSON array of strings.
pub open spec fn spec_json_string_list(l: Seq<Seq<char>>) -> Seq<char> {
    "["@ + spec_json_string_items(l) + "]"@
}

/// Write a JSON array of strings.
pub fn json_string_list(l: &Vec<String>) -> (r: String)
    ensures
        r@ == spec_json_string_list(l.deep_view()),
{
    let n = l.len();
    let mut items = String::new();
    let mut i: usize = 0;
    proof {
        assert(l.deep_view().take(0) =~= Seq::<Seq<char>>::empty());
    }
    while i < n
        invariant
            n == l@.len(),
            l.deep_view().len() == n,
            0 <= i <= n,
            items@ == spec_json_string_items(l.deep_view().take(i as int)),
        decreases n - i,
    {
        proof {
            assert(l.deep_view().take(i + 1).drop_last() =~= l.deep_view().take(i as int));
            assert(l.deep_view().take(i + 1).last() == l.deep_view()[i as int]);
            assert(l.deep_view()[i as int] == l@[i as int]@);
        }
        if i > 0 {
            items.append(",");
        }
        items.append(json_string(l[i].as_str()).as_str());
        i = i + 1;
    }
    proof {
        assert(l.deep_view().take(n as int) =~= l.deep_view());
    }
    let r = String::from_str("[").concat(items.as_str()).concat("]");
    proof {
        assert(r@ =~= spec_json_string_list(l.deep_view()));
    }
    r
}

/// The JSON text of the probe section.
pub open spec fn spec_probe_json(p: crate::ProbeInfo) -> Seq<char> {
    "{\"id\":"@ + spec_json_string(p.id@) + ",\"version\":"@ + spec_json_string(p.version@)
        + ",\"primary_capability_id\":"@ + spec_json_string(p.primary_capability_id@)
        + ",\"secondary_capability_ids\":"@ + spec_json_string_list(
        p.secondary_capability_ids.deep_view(),
    ) + "}"@
}

/// Write the probe section.
pub fn probe_json(p: &crate::ProbeInfo) -> (r: String)
    ensures
        r@ == spec_probe_json(*p),
{
    let r = String::from_str("{\"id\":").concat(json_string(p.id.as_str()).as_str()).concat(
        ",\"version\":",
    ).concat(json_string(p.version.as_str()).as_str()).concat(
        ",\"primary_capability_id\":",
    ).concat(json_string(p.primary_capability_id.as_str()).as_str()).concat(
        ",\"secondary_capability_ids\":",
    ).concat(json_string_list(&p.secondary_capability_ids).as_str()).concat("}");
    proof {
        assert(r@ =~= spec_probe_json(*p));
    }
    r
}

/// The JSON text of the run section.
pub open spec fn spec_run_json(run: crate::RunInfo) -> Seq<char> {
    "{\"mode\":"@ + spec_json_string(run.mode@) + ",\"workspace_root\":"@ + spec_json_opt_string(
        run.workspace_root,
    ) + ",\"command\":"@ + spec_json_string(run.command@) + "}"@
}

/// Write the run section.
pub fn run_json(run: &crate::RunInfo) -> (r: String)
    ensures
        r@ == spec_run_json(*run),
{
    let r = String::from_str("{\"mode\":").concat(json_string(run.mode.as_str()).as_str()).concat(
        ",\"workspace_root\":",
    ).concat(json_opt_string(&run.workspace_root).as_str()).concat(",\"command\":").concat(
        json_string(run.command.as_str()).as_str(),
    ).concat("}");
    proof {
        assert(r@ =~= spec_run_json(*run));
    }
    r
}

/// The JSON text of the operation section; `args` is embedded verbatim and
/// must itself hold one JSON value.
pub open spec fn spec_operation_json(op: crate::OperationInfo) -> Seq<char> {
    "{\"category\":"@ + spec_json_string(op.category@) + ",\"verb\":"@ + spec_json_string(op.verb@)
        + ",\"target\":"@ + spec_json_string(op.target@) + ",\"args\":"@ + op.args@ + "}"@
}

/// Write the operation section.
pub fn operation_json(op: &crate::OperationInfo) -> (r: String)
    ensures
        r@ == spec_operation_json(*op),
{
    let r = String::from_str("{\"category\":").concat(
        json_string(op.category.as_str()).as_str(),
    ).concat(",\"verb\":").concat(json_string(op.verb.as_str()).as_str()).concat(
        ",\"target\":",
    ).concat(json_string(op.target.as_str()).as_str()).concat(",\"args\":").concat(
        op.args.as_str(),
    ).concat("}");
    proof {
        assert(r@ =~= spec_operation_json(*op));
    }
    r
}

/// The JSON text of the result section.
pub open spec fn spec_result_json(res: crate::ResultInfo) -> Seq<char> {
    "{\"observed_result\":"@ + spec_json_string(res.observed_result@) + ",\"errno\":"@
        + spec_json_opt_string(res.errno) + ",\"message\":"@ + spec_json_opt_string(res.message)
        + ",\"raw_exit_code\":"@ + spec_json_opt_i64(res.raw_exit_code) + ",\"error_detail\":"@
        + spec_json_opt_string(res.error_detail) + "}"@
}

/// Write the result section.
pub fn result_json(res: &crate::ResultInfo) -> (r: String)
    ensures
        r@ == spec_result_json(*res),
{
    let r = String::from_str("{\"observed_result\":").concat(
        json_string(res.observed_result.as_str()).as_str(),
    ).concat(",\"errno\":").concat(json_opt_string(&res.errno).as_str()).concat(
        ",\"message\":",
    ).concat(json_opt_string(&res.message).as_str()).concat(",\"raw_exit_code\":").concat(
        json_opt_i64(&res.raw_exit_code).as_str(),
    ).concat(",\"error_detail\":").concat(json_opt_string(&res.error_detail).as_str()).concat(
        "}",
    );
    proof {
        assert(r@ =~= spec_result_json(*res));
    }
    r
}

/// The JSON text of one capability snapshot.
pub open spec fn spec_snapshot_json(s: crate::CapabilitySnapshot) -> Seq<char> {
    "{\"id\":"@ + spec_json_string(s.id@) + ",\"category\":"@ + spec_json_string(s.category@)
        + ",\"layer\":"@ + spec_json_string(s.layer@) + "}"@
}

/// Write one capability snapshot.
pub fn snapshot_json(s: &crate::CapabilitySnapshot) -> (r: String)
    ensures
        r@ == spec_snapshot_json(*s),
{
    let r = String::from_str("{\"id\":").concat(json_string(s.id.as_str()).as_str()).concat(
        ",\"category\":",
    ).concat(json_string(s.category.as_str()).as_str()).concat(",\"layer\":").concat(
        json_string(s.layer.as_str()).as_str(),
    ).concat("}");
    proof {
        assert(r@ =~= spec_snapshot_json(*s));
    }
    r
}

/// The comma-joined snapshots of a capability list.
pub open spec fn spec_snapshot_items(l: Seq<crate::CapabilitySnapshot>) -> Seq<char>
    decreases l.len(),
{
    if l.len() == 0 {
        Seq::empty()
    } else if l.len() == 1 {
        spec_snapshot_json(l[0])
    } else {
        spec_snapshot_items(l.drop_last()) + ","@ + spec_snapshot_json(l.last())
    }
}

/// The JSON text of the capability context, or `null` when none was
/// captured.
pub open spec fn spec_context_json(ctx: Option<crate::CapabilityContext>) -> Seq<char> {
    match ctx {
        Some(c) => "{\"primary\":"@ + spec_snapshot_json(c.primary) + ",\"secondary\":["@
            + spec_snapshot_items(c.secondary@) + "]}"@,
        None => "null"@,
    }
}

/// Write the capability context.
pub fn context_json(ctx: &Option<crate::CapabilityContext>) -> (r: String)
    ensures
        r@ == spec_context_json(*ctx),
{
    let c = match ctx {
        Some(c) => c,
        None => {
            return String::from_str("null");
        },
    };
    let n = c.secondary.len();
    let mut items = String::new();
    let mut i: usize = 0;
    proof {
        assert(c.secondary@.take(0) =~= Seq::<crate::CapabilitySnapshot>::empty());
    }
    while i < n
        invariant
            n == c.secondary@.len(),
            0 <= i <= n,
            items@ == spec_snapshot_items(c.secondary@.take(i as int)),
        decreases n - i,
    {
        proof {
            assert(c.secondary@.take(i + 1).drop_last() =~= c.secondary@.take(i as int));
            assert(c.secondary@.take(i + 1).last() == c.secondary@[i as int]);
        }
        if i > 0 {
            items.append(",");
        }
        items.append(snapshot_json(&c.secondary[i]).as_str());
        i = i + 1;
    }
    proof {
        assert(c.secondary@.take(n as int) =~= c.secondary@);
    }
    let r = String::from_str("{\"primary\":").concat(snapshot_json(&c.primary).as_str()).concat(
        ",\"secondary\":[",
    ).concat(items.as_str()).concat("]}");
    proof {
        assert(ctx matches Some(cc) && cc == c);
        assert(r@ =~= spec_context_json(*ctx));
    }
    r
}

/// The compact one-line JSON text of a boundary object.
pub open spec fn spec_boundary_json(b: crate::BoundaryObject) -> Seq<char> {
    "{\"schema_version\":"@ + spec_json_string(b.schema_version@)
        + ",\"capabilities_schema_version\":"@ + spec_json_opt_string(
        b.capabilities_schema_version,
    ) + ",\"stack\":"@ + b.stack@ + ",\"probe\":"@ + spec_probe_json(b.probe) + ",\"run\":"@
        + spec_run_json(b.run) + ",\"operation\":"@ + spec_operation_json(b.operation)
        + ",\"result\":"@ + spec_result_json(b.result) + ",\"payload\":"@ + b.payload@
        + ",\"capability_context\":"@ + spec_context_json(b.capability_context) + "}"@
}

/// Write a boundary object as one compact JSON line, ready for the
/// newline-delimited output stream.  `operation.args`, `stack` and
/// `payload` must each hold one JSON value; they are embedded verbatim.
pub fn boundary_object_to_json(b: &crate::BoundaryObject) -> (r: String)
    ensures
        r@ == spec_boundary_json(*b),
{
    let r = String::from_str("{\"schema_version\":").concat(
        json_string(b.schema_version.as_str()).as_str(),
    ).concat(",\"capabilities_schema_version\":").concat(
        json_opt_string(&b.capabilities_schema_version).as_str(),
    ).concat(",\"stack\":").concat(b.stack.as_str()).concat(",\"probe\":").concat(
        probe_json(&b.probe).as_str(),
    ).concat(",\"run\":").concat(run_json(&b.run).as_str()).concat(",\"operation\":").concat(
        operation_json(&b.operation).as_str(),
    ).concat(",\"result\":").concat(result_json(&b.result).as_str()).concat(
        ",\"payload\":",
    ).concat(b.payload.as_str()).concat(",\"capability_context\":").concat(
        context_json(&b.capability_context).as_str(),
    ).concat("}");
    proof {
        assert(r@ =~= spec_boundary_json(*b));
    }
    r
}

} // verus!
