//! The machine-readable view: a canonical JSON document over the collected
//! show results, together with a parser for that document. The renderer is
//! deterministic, preserves the input order and every field, and the parser
//! is proved to recover exactly what was rendered.
use vstd::prelude::*;

use crate::numfmt::{dec_seq, u32_to_dec};
use crate::types::{MarkingPolicy, ShowConfig, ShowResult, string_views};

verus! {

/// The fields of one show result that the document carries, with all text
/// taken up to its character sequence.
#[verifier::ext_equal]
pub ghost struct ConfigV {
    pub dscp_config: Option<MarkingPolicy>,
    pub prefixes: Seq<Seq<char>>,
}

/// The view of one show result: instance index and, if the instance knows
/// the queried name, its observed config.
#[verifier::ext_equal]
pub ghost struct ShowResultV {
    pub instance: u32,
    pub config: Option<ConfigV>,
}

/// The view of one observed config.
pub open spec fn config_view(c: ShowConfig) -> ConfigV {
    ConfigV { dscp_config: c.dscp_config, prefixes: string_views(c.prefixes@) }
}

/// The view of one show result.
pub open spec fn result_view(r: ShowResult) -> ShowResultV {
    ShowResultV {
        instance: r.instance,
        config: match r.config {
            Some(c) => Some(config_view(c)),
            None => None,
        },
    }
}

/// The views of a sequence of show results, in order.
pub open spec fn results_view(rs: Seq<ShowResult>) -> Seq<ShowResultV> {
    rs.map_values(|r: ShowResult| result_view(r))
}

/// The escaped form of one character inside a quoted string: quotes and
/// backslashes get a backslash in front, everything else stands as it is.
pub open spec fn esc_char(c: char) -> Seq<char> {
    if c == '"' || c == '\\' {
        seq!['\\', c]
    } else {
        seq![c]
    }
}

/// The escaped form of a whole string body.
pub open spec fn esc_str(s: Seq<char>) -> Seq<char>
    decreases s.len(),
{
    if s.len() == 0 {
        Seq::empty()
    } else {
        esc_char(s[0]) + esc_str(s.skip(1))
    }
}

/// A quoted, escaped string.
pub open spec fn json_string(s: Seq<char>) -> Seq<char> {
    seq!['"'] + esc_str(s) + seq!['"']
}

/// The comma-separated quoted strings of a prefix list.
pub open spec fn strings_doc(ps: Seq<Seq<char>>) -> Seq<char>
    decreases ps.len(),
{
    if ps.len() == 0 {
        Seq::empty()
    } else if ps.len() == 1 {
        json_string(ps[0])
    } else {
        json_string(ps[0]) + seq![','] + strings_doc(ps.skip(1))
    }
}

/// The document form of an optional marking policy.
pub open spec fn marking_doc(m: Option<MarkingPolicy>) -> Seq<char> {
    match m {
        None => "null"@,
        Some(p) => "{\"flag\":"@ + dec_seq(p.flag as nat) + ",\"mark\":"@ + dec_seq(p.mark as nat)
            + "}"@,
    }
}

/// The document form of an optional observed config.
pub open spec fn config_doc(c: Option<ConfigV>) -> Seq<char> {
    match c {
        None => "null"@,
        Some(cv) => "{\"dscp_config\":"@ + marking_doc(cv.dscp_config) + ",\"prefixes\":["@
            + strings_doc(cv.prefixes) + "]}"@,
    }
}

/// The document form of one show result.
pub open spec fn result_doc(r: ShowResultV) -> Seq<char> {
    "{\"instance\":"@ + dec_seq(r.instance as nat) + ",\"config\":"@ + config_doc(r.config) + "}"@
}

/// The comma-separated document forms of the results, in input order.
pub open spec fn items_doc(rs: Seq<ShowResultV>) -> Seq<char>
    decreases rs.len(),
{
    if rs.len() == 0 {
        Seq::empty()
    } else if rs.len() == 1 {
        result_doc(rs[0])
    } else {
        result_doc(rs[0]) + seq![','] + items_doc(rs.skip(1))
    }
}

/// The whole structured document: the results as a JSON array, in input
/// order, with every field carried.
pub open spec fn structured_doc(rs: Seq<ShowResultV>) -> Seq<char> {
    seq!['['] + items_doc(rs) + seq![']']
}

/// Relies on String::push: appends the given character to the end of the
/// string.
#[verifier::external_body]
fn push_char(s: &mut String, c: char)
    ensures
        final(s)@ == old(s)@.push(c),
{
    s.push(c);
}

/// Turns a string into its characters, in order.
fn str_chars(s: &str) -> (r: Vec<char>)
    ensures
        r@ == s@,
{
    let n = s.unicode_len();
    let mut r: Vec<char> = Vec::new();
    for i in 0..n
        invariant
            n == s@.len(),
            r@ == s@.take(i as int),
    {
        r.push(s.get_char(i));
        proof {
            assert(r@ =~= s@.take(i + 1));
        }
    }
    proof {
        assert(s@.take(n as int) =~= s@);
    }
    r
}

/// Renders the escaped form of the characters from position `i` on.
fn esc_string_from(s: &Vec<char>, i: usize) -> (r: String)
    requires
        i <= s@.len(),
    ensures
        r@ == esc_str(s@.skip(i as int)),
    decreases s@.len() - i,
{
    if i == s.len() {
        proof {
            assert(s@.skip(i as int) =~= Seq::<char>::empty());
        }
        String::new()
    } else {
        let c = s[i];
        let tail = esc_string_from(s, i + 1);
        let mut head = String::new();
        if c == '"' || c == '\\' {
            push_char(&mut head, '\\');
        }
        push_char(&mut head, c);
        let out = head.concat(tail.as_str());
        proof {
            let suf = s@.skip(i as int);
            assert(suf[0] == s@[i as int]);
            assert(suf.skip(1) =~= s@.skip(i as int + 1));
            assert(out@ =~= esc_str(suf));
        }
        out
    }
}

/// Renders a quoted, escaped string.
fn json_string_of(s: &str) -> (r: String)
    ensures
        r@ == json_string(s@),
{
    let chars = str_chars(s);
    let mut out = String::from_str("\"");
    out.append(esc_string_from(&chars, 0).as_str());
    out.append("\"");
    proof {
        reveal_strlit("\"");
        assert(chars@.skip(0) =~= s@);
        assert(out@ =~= json_string(s@));
    }
    out
}

/// Renders the comma-separated quoted prefixes from position `i` on.
fn strings_doc_from(ps: &Vec<String>, i: usize) -> (r: String)
    requires
        i <= ps@.len(),
    ensures
        r@ == strings_doc(string_views(ps@).skip(i as int)),
    decreases ps@.len() - i,
{
    let ghost tail = string_views(ps@).skip(i as int);
    if i == ps.len() {
        proof {
            assert(tail =~= Seq::<Seq<char>>::empty());
        }
        String::new()
    } else if i + 1 == ps.len() {
        let r = json_string_of(ps[i].as_str());
        proof {
            assert(tail.len() == 1);
            assert(tail[0] == ps@[i as int]@);
        }
        r
    } else {
        let mut out = json_string_of(ps[i].as_str());
        out.append(",");
        out.append(strings_doc_from(ps, i + 1).as_str());
        proof {
            reveal_strlit(",");
            assert(tail[0] == ps@[i as int]@);
            assert(tail.skip(1) =~= string_views(ps@).skip(i as int + 1));
            assert(out@ =~= strings_doc(tail));
        }
        out
    }
}

/// Renders an optional marking policy.
fn marking_doc_of(m: &Option<MarkingPolicy>) -> (r: String)
    ensures
        r@ == marking_doc(*m),
{
    match m {
        None => String::from_str("null"),
        Some(p) => {
            let mut out = String::from_str("{\"flag\":");
            out.append(u32_to_dec(p.flag).as_str());
            out.append(",\"mark\":");
            out.append(u32_to_dec(p.mark).as_str());
            out.append("}");
            out
        },
    }
}

/// Renders an optional observed config.
fn config_doc_of(c: &Option<ShowConfig>) -> (r: String)
    ensures
        r@ == config_doc(
            match *c {
                Some(cv) => Some(config_view(cv)),
                None => None,
            },
        ),
{
    match c {
        None => String::from_str("null"),
        Some(cv) => {
            let mut out = String::from_str("{\"dscp_config\":");
            out.append(marking_doc_of(&cv.dscp_config).as_str());
            out.append(",\"prefixes\":[");
            out.append(strings_doc_from(&cv.prefixes, 0).as_str());
            out.append("]}");
            proof {
                assert(string_views(cv.prefixes@).skip(0) =~= string_views(cv.prefixes@));
            }
            out
        },
    }
}

/// Renders one show result.
fn result_doc_of(r: &ShowResult) -> (out: String)
    ensures
        out@ == result_doc(result_view(*r)),
{
    let mut out = String::from_str("{\"instance\":");
    out.append(u32_to_dec(r.instance).as_str());
    out.append(",\"config\":");
    out.append(config_doc_of(&r.config).as_str());
    out.append("}");
    out
}

/// Renders the comma-separated results from position `i` on.
fn items_doc_from(rs: &Vec<ShowResult>, i: usize) -> (r: String)
    requires
        i <= rs@.len(),
    ensures
        r@ == items_doc(results_view(rs@).skip(i as int)),
    decreases rs@.len() - i,
{
    let ghost tail = results_view(rs@).skip(i as int);
    if i == rs.len() {
        proof {
            assert(tail =~= Seq::<ShowResultV>::empty());
        }
        String::new()
    } else if i + 1 == rs.len() {
        let r = result_doc_of(&rs[i]);
        proof {
            assert(tail.len() == 1);
            assert(tail[0] == result_view(rs@[i as int]));
        }
        r
    } else {
        let mut out = result_doc_of(&rs[i]);
        out.append(",");
        out.append(items_doc_from(rs, i + 1).as_str());
        proof {
            reveal_strlit(",");
            assert(tail[0] == result_view(rs@[i as int]));
            assert(tail.skip(1) =~= results_view(rs@).skip(i as int + 1));
            assert(out@ =~= items_doc(tail));
        }
        out
    }
}

/// Renders the collected results as one canonical structured document,
/// exactly as [`structured_doc`] states: the same results always give the
/// same bytes, in input order, with every field carried.
pub fn render_structured(results: &Vec<ShowResult>) -> (r: String)
    ensures
        r@ == structured_doc(results_view(results@)),
{
    let mut out = String::from_str("[");
    out.append(items_doc_from(results, 0).as_str());
    out.append("]");
    proof {
        reveal_strlit("[");
        reveal_strlit("]");
        assert(results_view(results@).skip(0) =~= results_view(results@));
        assert(out@ =~= structured_doc(results_view(results@)));
    }
    out
}

/// The digit value of a decimal digit character; 10 marks a non-digit.
pub open spec fn digit_val(c: char) -> nat {
    if c == '0' {
        0
    } else if c == '1' {
        1
    } else if c == '2' {
        2
    } else if c == '3' {
        3
    } else if c == '4' {
        4
    } else if c == '5' {
        5
    } else if c == '6' {
        6
    } else if c == '7' {
        7
    } else if c == '8' {
        8
    } else if c == '9' {
        9
    } else {
        10
    }
}

/// Whether `c` is a decimal digit.
pub open spec fn is_dec_digit(c: char) -> bool {
    digit_val(c) < 10
}

/// The position of the first non-digit at or after `i`.
pub open spec fn digit_end(s: Seq<char>, i: int) -> int
    decreases s.len() - i,
{
    if 0 <= i && i < s.len() && is_dec_digit(s[i]) {
        digit_end(s, i + 1)
    } else {
        i
    }
}

/// The value of a digit run, most significant digit first.
pub open spec fn seq_val(ds: Seq<char>) -> nat
    decreases ds.len(),
{
    if ds.len() == 0 {
        0
    } else {
        seq_val(ds.drop_last()) * 10 + digit_val(ds.last())
    }
}

/// Powers of ten.
pub open spec fn pow10(k: nat) -> nat
    decreases k,
{
    if k == 0 {
        1
    } else {
        10 * pow10((k - 1) as nat)
    }
}

/// Whether the text `t` stands in `s` at position `i`.
pub open spec fn at_lit(s: Seq<char>, i: int, t: Seq<char>) -> bool {
    0 <= i && i + t.len() <= s.len() && s.subrange(i, i + t.len()) == t
}

/// Whether the character `c` stands in `s` at position `i`.
pub open spec fn at_char(s: Seq<char>, i: int, c: char) -> bool {
    0 <= i && i < s.len() && s[i] == c
}

/// Parses a number: the maximal digit run at `i`, refused when empty, longer
/// than ten digits, or beyond `u32`.
pub open spec fn p_num(s: Seq<char>, i: int) -> Option<(u32, int)> {
    let j = digit_end(s, i);
    if j == i || j - i > 10 {
        None
    } else {
        let v = seq_val(s.subrange(i, j));
        if v > u32::MAX {
            None
        } else {
            Some((v as u32, j))
        }
    }
}

/// Parses a quoted string's body from just after the opening quote: plain
/// characters up to the closing quote, with a backslash taking the next
/// character literally.
pub open spec fn p_strbody(s: Seq<char>, i: int) -> Option<(Seq<char>, int)>
    decreases s.len() - i,
{
    if i < 0 || i >= s.len() {
        None
    } else if s[i] == '"' {
        Some((Seq::empty(), i + 1))
    } else if s[i] == '\\' {
        if i + 1 < s.len() {
            match p_strbody(s, i + 2) {
                Some(t) => Some((seq![s[i + 1]] + t.0, t.1)),
                None => None,
            }
        } else {
            None
        }
    } else {
        match p_strbody(s, i + 1) {
            Some(t) => Some((seq![s[i]] + t.0, t.1)),
            None => None,
        }
    }
}

/// Parses a quoted string at `i`.
pub open spec fn p_string(s: Seq<char>, i: int) -> Option<(Seq<char>, int)> {
    if at_char(s, i, '"') {
        p_strbody(s, i + 1)
    } else {
        None
    }
}

/// A parsed string ends after its opening position and within the input.
pub proof fn lemma_p_strbody_advances(s: Seq<char>, i: int)
    ensures
        p_strbody(s, i) matches Some(t) ==> i < t.1 <= s.len(),
    decreases s.len() - i,
{
    if 0 <= i && i < s.len() {
        if s[i] == '"' {
        } else if s[i] == '\\' {
            if i + 1 < s.len() {
                lemma_p_strbody_advances(s, i + 2);
            }
        } else {
            lemma_p_strbody_advances(s, i + 1);
        }
    }
}

/// Parses one or more comma-separated quoted strings.
pub open spec fn p_strings(s: Seq<char>, i: int) -> Option<(Seq<Seq<char>>, int)>
    decreases s.len() - i,
    via p_strings_dec
{
    match p_string(s, i) {
        Some(v) => {
            if at_char(s, v.1, ',') {
                match p_strings(s, v.1 + 1) {
                    Some(vs) => Some((seq![v.0] + vs.0, vs.1)),
                    None => None,
                }
            } else {
                Some((seq![v.0], v.1))
            }
        },
        None => None,
    }
}

#[via_fn]
proof fn p_strings_dec(s: Seq<char>, i: int) {
    if at_char(s, i, '"') {
        lemma_p_strbody_advances(s, i + 1);
    }
}

/// Parses an optional marking policy: `null` or an object with the flag and
/// the mark.
pub open spec fn p_marking(s: Seq<char>, i: int) -> Option<(Option<MarkingPolicy>, int)> {
    if at_lit(s, i, "null"@) {
        Some((None, i + "null"@.len()))
    } else if at_lit(s, i, "{\"flag\":"@) {
        match p_num(s, i + "{\"flag\":"@.len()) {
            Some(f) => if at_lit(s, f.1, ",\"mark\":"@) {
                match p_num(s, f.1 + ",\"mark\":"@.len()) {
                    Some(m) => if at_char(s, m.1, '}') {
                        Some((Some(MarkingPolicy { flag: f.0, mark: m.0 }), m.1 + 1))
                    } else {
                        None
                    },
                    None => None,
                }
            } else {
                None
            },
            None => None,
        }
    } else {
        None
    }
}

/// Parses an optional observed config: `null` or an object with the marking
/// and the prefix list.
pub open spec fn p_config(s: Seq<char>, i: int) -> Option<(Option<ConfigV>, int)> {
    if at_lit(s, i, "null"@) {
        Some((None, i + "null"@.len()))
    } else if at_lit(s, i, "{\"dscp_config\":"@) {
        match p_marking(s, i + "{\"dscp_config\":"@.len()) {
            Some(m) => if at_lit(s, m.1, ",\"prefixes\":["@) {
                let k = m.1 + ",\"prefixes\":["@.len();
                if at_char(s, k, ']') {
                    if at_char(s, k + 1, '}') {
                        Some((Some(ConfigV { dscp_config: m.0, prefixes: Seq::empty() }), k + 2))
                    } else {
                        None
                    }
                } else {
                    match p_strings(s, k) {
                        Some(ps) => if at_char(s, ps.1, ']') && at_char(s, ps.1 + 1, '}') {
                            Some((Some(ConfigV { dscp_config: m.0, prefixes: ps.0 }), ps.1 + 2))
                        } else {
                            None
                        },
                        None => None,
                    }
                }
            } else {
                None
            },
            None => None,
        }
    } else {
        None
    }
}

/// Parses one show result object.
pub open spec fn p_result(s: Seq<char>, i: int) -> Option<(ShowResultV, int)> {
    if at_lit(s, i, "{\"instance\":"@) {
        match p_num(s, i + "{\"instance\":"@.len()) {
            Some(n) => if at_lit(s, n.1, ",\"config\":"@) {
                match p_config(s, n.1 + ",\"config\":"@.len()) {
                    Some(c) => if at_char(s, c.1, '}') {
                        Some((ShowResultV { instance: n.0, config: c.0 }, c.1 + 1))
                    } else {
                        None
                    },
                    None => None,
                }
            } else {
                None
            },
            None => None,
        }
    } else {
        None
    }
}

/// The first non-digit comes at or after the starting position and within
/// the input.
pub proof fn lemma_digit_end_bounds(s: Seq<char>, i: int)
    requires
        0 <= i <= s.len(),
    ensures
        i <= digit_end(s, i) <= s.len(),
    decreases s.len() - i,
{
    if i < s.len() && is_dec_digit(s[i]) {
        lemma_digit_end_bounds(s, i + 1);
    }
}

/// A parsed number ends after its starting position and within the input.
pub proof fn lemma_p_num_advances(s: Seq<char>, i: int)
    requires
        0 <= i <= s.len(),
    ensures
        p_num(s, i) matches Some(t) ==> i < t.1 <= s.len(),
{
    lemma_digit_end_bounds(s, i);
}

/// A parsed marking ends after its starting position and within the input.
pub proof fn lemma_p_marking_advances(s: Seq<char>, i: int)
    ensures
        p_marking(s, i) matches Some(t) ==> i < t.1 <= s.len(),
{
    reveal_strlit("null");
    reveal_strlit("{\"flag\":");
    reveal_strlit(",\"mark\":");
    if at_lit(s, i, "{\"flag\":"@) {
        lemma_p_num_advances(s, i + "{\"flag\":"@.len());
        if p_num(s, i + "{\"flag\":"@.len()) is Some {
            let f = p_num(s, i + "{\"flag\":"@.len())->Some_0;
            if at_lit(s, f.1, ",\"mark\":"@) {
                lemma_p_num_advances(s, f.1 + ",\"mark\":"@.len());
            }
        }
    }
}

/// A parsed string list ends after its starting position and within the
/// input.
pub proof fn lemma_p_strings_advances(s: Seq<char>, i: int)
    ensures
        p_strings(s, i) matches Some(t) ==> i < t.1 <= s.len(),
    decreases s.len() - i,
{
    lemma_p_strbody_advances(s, i + 1);
    if p_string(s, i) is Some {
        let v = p_string(s, i)->Some_0;
        if at_char(s, v.1, ',') {
            lemma_p_strings_advances(s, v.1 + 1);
        }
    }
}

/// A parsed config ends after its starting position and within the input.
pub proof fn lemma_p_config_advances(s: Seq<char>, i: int)
    ensures
        p_config(s, i) matches Some(t) ==> i < t.1 <= s.len(),
{
    reveal_strlit("null");
    reveal_strlit("{\"dscp_config\":");
    reveal_strlit(",\"prefixes\":[");
    if at_lit(s, i, "{\"dscp_config\":"@) {
        lemma_p_marking_advances(s, i + "{\"dscp_config\":"@.len());
        if p_marking(s, i + "{\"dscp_config\":"@.len()) is Some {
            let m = p_marking(s, i + "{\"dscp_config\":"@.len())->Some_0;
            if at_lit(s, m.1, ",\"prefixes\":["@) {
                lemma_p_strings_advances(s, m.1 + ",\"prefixes\":["@.len());
            }
        }
    }
}

/// A parsed result ends after its starting position and within the input.
pub proof fn lemma_p_result_advances(s: Seq<char>, i: int)
    ensures
        p_result(s, i) matches Some(t) ==> i < t.1 <= s.len(),
{
    reveal_strlit("{\"instance\":");
    reveal_strlit(",\"config\":");
    if at_lit(s, i, "{\"instance\":"@) {
        lemma_p_num_advances(s, i + "{\"instance\":"@.len());
        if p_num(s, i + "{\"instance\":"@.len()) is Some {
            let n = p_num(s, i + "{\"instance\":"@.len())->Some_0;
            if at_lit(s, n.1, ",\"config\":"@) {
                lemma_p_config_advances(s, n.1 + ",\"config\":"@.len());
            }
        }
    }
}

/// Parses one or more comma-separated show result objects.
pub open spec fn p_items(s: Seq<char>, i: int) -> Option<(Seq<ShowResultV>, int)>
    decreases s.len() - i,
    via p_items_dec
{
    match p_result(s, i) {
        Some(v) => {
            if at_char(s, v.1, ',') {
                match p_items(s, v.1 + 1) {
                    Some(vs) => Some((seq![v.0] + vs.0, vs.1)),
                    None => None,
                }
            } else {
                Some((seq![v.0], v.1))
            }
        },
        None => None,
    }
}

#[via_fn]
proof fn p_items_dec(s: Seq<char>, i: int) {
    lemma_p_result_advances(s, i);
}

/// Parses a whole structured document: a JSON array of show result objects,
/// with nothing before or after it.
pub open spec fn p_doc(s: Seq<char>) -> Option<Seq<ShowResultV>> {
    if !at_char(s, 0, '[') {
        None
    } else if s.len() == 2 && s[1] == ']' {
        Some(Seq::empty())
    } else {
        match p_items(s, 1) {
            Some(rs) => if rs.1 == s.len() - 1 && s[rs.1] == ']' {
                Some(rs.0)
            } else {
                None
            },
            None => None,
        }
    }
}

/// Helpers relating the exec values a parse builds to the parsed views.
pub open spec fn opt_config_view(c: Option<ShowConfig>) -> Option<ConfigV> {
    match c {
        Some(cv) => Some(config_view(cv)),
        None => None,
    }
}

/// The digit value of a character, 10 for a non-digit.
fn digit_value(c: char) -> (r: u32)
    ensures
        r == digit_val(c),
{
    match c {
        '0' => 0,
        '1' => 1,
        '2' => 2,
        '3' => 3,
        '4' => 4,
        '5' => 5,
        '6' => 6,
        '7' => 7,
        '8' => 8,
        '9' => 9,
        _ => 10,
    }
}

/// Whether the text stands in the input at position `i`.
fn check_lit(s: &Vec<char>, i: usize, lit: &str) -> (r: bool)
    ensures
        r == at_lit(s@, i as int, lit@),
{
    let n = lit.unicode_len();
    if i > s.len() || n > s.len() - i {
        return false;
    }
    let mut k: usize = 0;
    while k < n
        invariant
            i + n <= s.len(),
            i + n <= s@.len(),
            n == lit@.len(),
            k <= n,
            forall|m: int| 0 <= m < k ==> s@[i + m] == lit@[m],
        decreases n - k,
    {
        if s[i + k] != lit.get_char(k) {
            proof {
                if at_lit(s@, i as int, lit@) {
                    assert(s@.subrange(i as int, i + lit@.len())[k as int] == s@[i + k]);
                }
            }
            return false;
        }
        k += 1;
    }
    proof {
        assert(s@.subrange(i as int, i + lit@.len()) =~= lit@);
    }
    true
}

/// The position just after the text, when it stands in the input at
/// position `i`.
fn skip_lit(s: &Vec<char>, i: usize, lit: &str) -> (r: Option<usize>)
    ensures
        match r {
            Some(j) => at_lit(s@, i as int, lit@) && j == i + lit@.len(),
            None => !at_lit(s@, i as int, lit@),
        },
{
    let n = lit.unicode_len();
    if i > s.len() || n > s.len() - i {
        return None;
    }
    if check_lit(s, i, lit) {
        Some(i + n)
    } else {
        None
    }
}

/// Whether the character stands in the input at position `i`.
fn check_char(s: &Vec<char>, i: usize, c: char) -> (r: bool)
    ensures
        r == at_char(s@, i as int, c),
{
    i < s.len() && s[i] == c
}

/// Powers of ten only grow.
proof fn lemma_pow10_le(a: nat, b: nat)
    requires
        a <= b,
    ensures
        pow10(a) <= pow10(b),
    decreases b,
{
    if a < b {
        lemma_pow10_le(a, (b - 1) as nat);
    }
}

/// Parses a number, exactly as [`p_num`] states.
fn parse_num(s: &Vec<char>, i: usize) -> (r: Option<(u32, usize)>)
    requires
        i <= s@.len(),
    ensures
        match r {
            Some(t) => p_num(s@, i as int) == Some((t.0, t.1 as int)),
            None => p_num(s@, i as int) is None,
        },
{
    let mut j = i;
    while j < s.len() && digit_value(s[j]) < 10
        invariant
            i <= j <= s@.len(),
            digit_end(s@, i as int) == digit_end(s@, j as int),
        decreases s@.len() - j,
    {
        j += 1;
    }
    proof {
        assert(digit_end(s@, j as int) == j);
        assert(forall|m: int|
            i <= m < j ==> is_dec_digit(s@[m])) by {
            lemma_digit_run(s@, i as int, j as int);
        }
    }
    if j == i || j - i > 10 {
        return None;
    }
    let ghost ds = s@.subrange(i as int, j as int);
    let mut v: u64 = 0;
    let mut k = i;
    while k < j
        invariant
            i <= k <= j <= s@.len(),
            j - i <= 10,
            forall|m: int| i <= m < j ==> is_dec_digit(s@[m]),
            v == seq_val(s@.subrange(i as int, k as int)),
            v < pow10((k - i) as nat),
        decreases j - k,
    {
        let d = digit_value(s[k]);
        proof {
            reveal_with_fuel(pow10, 12);
            lemma_pow10_le(((k - i) as nat), 9nat);
            let sub1 = s@.subrange(i as int, k + 1);
            assert(sub1.drop_last() =~= s@.subrange(i as int, k as int));
            assert(sub1.last() == s@[k as int]);
        }
        v = v * 10 + d as u64;
        k += 1;
    }
    proof {
        assert(s@.subrange(i as int, k as int) == ds);
    }
    if v > 0xFFFF_FFFFu64 {
        None
    } else {
        Some((v as u32, j))
    }
}

/// A run that ends at the first non-digit is all digits.
proof fn lemma_digit_run(s: Seq<char>, i: int, j: int)
    requires
        0 <= i <= j <= s.len(),
        digit_end(s, i) == j,
    ensures
        forall|m: int| i <= m < j ==> is_dec_digit(s[m]),
    decreases j - i,
{
    if i < j {
        assert(is_dec_digit(s[i])) by {
            if !(0 <= i && i < s.len() && is_dec_digit(s[i])) {
                assert(digit_end(s, i) == i);
            }
        }
        lemma_digit_run(s, i + 1, j);
    }
}

/// Parses a quoted string's body, exactly as [`p_strbody`] states.
fn parse_strbody(s: &Vec<char>, i: usize) -> (r: Option<(String, usize)>)
    requires
        i <= s@.len(),
    ensures
        match r {
            Some(t) => (p_strbody(s@, i as int) matches Some(pt) && pt.0 == t.0@ && pt.1 == t.1
                as int),
            None => p_strbody(s@, i as int) is None,
        },
    decreases s@.len() - i,
{
    if i == s.len() {
        None
    } else if s[i] == '"' {
        Some((String::new(), i + 1))
    } else if s[i] == '\\' {
        if i + 1 < s.len() {
            match parse_strbody(s, i + 2) {
                Some(t) => {
                    let mut h = String::new();
                    push_char(&mut h, s[i + 1]);
                    let out = h.concat(t.0.as_str());
                    proof {
                        assert(out@ =~= seq![s@[i + 1]] + t.0@);
                    }
                    Some((out, t.1))
                },
                None => None,
            }
        } else {
            None
        }
    } else {
        match parse_strbody(s, i + 1) {
            Some(t) => {
                let mut h = String::new();
                push_char(&mut h, s[i]);
                let out = h.concat(t.0.as_str());
                proof {
                    assert(out@ =~= seq![s@[i as int]] + t.0@);
                }
                Some((out, t.1))
            },
            None => None,
        }
    }
}

/// Parses a quoted string, exactly as [`p_string`] states.
fn parse_string(s: &Vec<char>, i: usize) -> (r: Option<(String, usize)>)
    requires
        i <= s@.len(),
    ensures
        match r {
            Some(t) => (p_string(s@, i as int) matches Some(pt) && pt.0 == t.0@ && pt.1 == t.1
                as int),
            None => p_string(s@, i as int) is None,
        },
{
    if check_char(s, i, '"') {
        proof {
            assert(i < s.len());
        }
        parse_strbody(s, i + 1)
    } else {
        None
    }
}

/// Parses one or more comma-separated quoted strings, exactly as
/// [`p_strings`] states.
fn parse_strings(s: &Vec<char>, i: usize) -> (r: Option<(Vec<String>, usize)>)
    requires
        i <= s@.len(),
    ensures
        match r {
            Some(t) => (p_strings(s@, i as int) matches Some(pt) && pt.0 == string_views(t.0@)
                && pt.1 == t.1 as int),
            None => p_strings(s@, i as int) is None,
        },
    decreases s@.len() - i,
{
    match parse_string(s, i) {
        None => None,
        Some(t) => {
            let v = t.0;
            let j = t.1;
            proof {
                lemma_p_strbody_advances(s@, i as int + 1);
            }
            if check_char(s, j, ',') {
                proof {
                    assert(j < s.len());
                }
                match parse_strings(s, j + 1) {
                    None => None,
                    Some(rest) => {
                        let mut vs = rest.0;
                        let ghost old_views = string_views(vs@);
                        vs.insert(0, v);
                        proof {
                            assert(string_views(vs@) =~= seq![v@] + old_views);
                        }
                        Some((vs, rest.1))
                    },
                }
            } else {
                let mut out: Vec<String> = Vec::new();
                out.push(v);
                proof {
                    assert(string_views(out@) =~= seq![out@[0]@]);
                }
                Some((out, j))
            }
        },
    }
}

/// Parses an optional marking policy, exactly as [`p_marking`] states.
fn parse_marking(s: &Vec<char>, i: usize) -> (r: Option<(Option<MarkingPolicy>, usize)>)
    requires
        i <= s@.len(),
    ensures
        match r {
            Some(t) => p_marking(s@, i as int) == Some((t.0, t.1 as int)),
            None => p_marking(s@, i as int) is None,
        },
{
    if let Some(j) = skip_lit(s, i, "null") {
        Some((None, j))
    } else if let Some(j) = skip_lit(s, i, "{\"flag\":") {
        match parse_num(s, j) {
            None => None,
            Some(f) => {
                proof {
                    lemma_p_num_advances(s@, j as int);
                }
                match skip_lit(s, f.1, ",\"mark\":") {
                    None => None,
                    Some(k) => match parse_num(s, k) {
                        None => None,
                        Some(m) => {
                            if check_char(s, m.1, '}') {
                                proof {
                                    assert(m.1 < s.len());
                                }
                                Some((Some(MarkingPolicy { flag: f.0, mark: m.0 }), m.1 + 1))
                            } else {
                                None
                            }
                        },
                    },
                }
            },
        }
    } else {
        None
    }
}

/// Parses an optional observed config, exactly as [`p_config`] states.
fn parse_config(s: &Vec<char>, i: usize) -> (r: Option<(Option<ShowConfig>, usize)>)
    requires
        i <= s@.len(),
    ensures
        match r {
            Some(t) => (p_config(s@, i as int) matches Some(pt) && pt.0 == opt_config_view(t.0)
                && pt.1 == t.1 as int),
            None => p_config(s@, i as int) is None,
        },
{
    if let Some(j) = skip_lit(s, i, "null") {
        Some((None, j))
    } else if let Some(j) = skip_lit(s, i, "{\"dscp_config\":") {
        match parse_marking(s, j) {
            None => None,
            Some(m) => {
                proof {
                    lemma_p_marking_advances(s@, j as int);
                }
                match skip_lit(s, m.1, ",\"prefixes\":[") {
                    None => None,
                    Some(k) => {
                        if check_char(s, k, ']') {
                            proof {
                                assert(k < s.len());
                            }
                            if check_char(s, k + 1, '}') {
                                let cfg = ShowConfig { dscp_config: m.0, prefixes: Vec::new() };
                                proof {
                                    assert(k + 1 < s.len());
                                    assert(string_views(cfg.prefixes@) =~= Seq::<
                                        Seq<char>,
                                    >::empty());
                                    assert(config_view(cfg) =~= ConfigV {
                                        dscp_config: m.0,
                                        prefixes: Seq::empty(),
                                    });
                                }
                                Some((Some(cfg), k + 2))
                            } else {
                                None
                            }
                        } else {
                            match parse_strings(s, k) {
                                None => None,
                                Some(ps) => {
                                    if check_char(s, ps.1, ']') {
                                        proof {
                                            assert(ps.1 < s.len());
                                        }
                                        if check_char(s, ps.1 + 1, '}') {
                                            let ghost pviews = string_views(ps.0@);
                                            let cfg = ShowConfig {
                                                dscp_config: m.0,
                                                prefixes: ps.0,
                                            };
                                            proof {
                                                assert(ps.1 + 1 < s.len());
                                                assert(config_view(cfg) =~= ConfigV {
                                                    dscp_config: m.0,
                                                    prefixes: pviews,
                                                });
                                            }
                                            Some((Some(cfg), ps.1 + 2))
                                        } else {
                                            None
                                        }
                                    } else {
                                        None
                                    }
                                },
                            }
                        }
                    },
                }
            },
        }
    } else {
        None
    }
}

/// Parses one show result object, exactly as [`p_result`] states.
fn parse_result(s: &Vec<char>, i: usize) -> (r: Option<(ShowResult, usize)>)
    requires
        i <= s@.len(),
    ensures
        match r {
            Some(t) => (p_result(s@, i as int) matches Some(pt) && pt.0 == result_view(t.0)
                && pt.1 == t.1 as int),
            None => p_result(s@, i as int) is None,
        },
{
    match skip_lit(s, i, "{\"instance\":") {
        None => None,
        Some(j) => match parse_num(s, j) {
            None => None,
            Some(n) => {
                proof {
                    lemma_p_num_advances(s@, j as int);
                }
                match skip_lit(s, n.1, ",\"config\":") {
                    None => None,
                    Some(k) => match parse_config(s, k) {
                        None => None,
                        Some(c) => {
                            if check_char(s, c.1, '}') {
                                proof {
                                    assert(c.1 < s.len());
                                }
                                let res = ShowResult { instance: n.0, config: c.0 };
                                proof {
                                    assert(result_view(res) =~= ShowResultV {
                                        instance: n.0,
                                        config: opt_config_view(res.config),
                                    });
                                }
                                Some((res, c.1 + 1))
                            } else {
                                None
                            }
                        },
                    },
                }
            },
        },
    }
}

/// Parses one or more comma-separated show result objects, exactly as
/// [`p_items`] states.
fn parse_items(s: &Vec<char>, i: usize) -> (r: Option<(Vec<ShowResult>, usize)>)
    requires
        i <= s@.len(),
    ensures
        match r {
            Some(t) => (p_items(s@, i as int) matches Some(pt) && pt.0 == results_view(t.0@)
                && pt.1 == t.1 as int),
            None => p_items(s@, i as int) is None,
        },
    decreases s@.len() - i,
{
    match parse_result(s, i) {
        None => None,
        Some(t) => {
            let j = t.1;
            proof {
                lemma_p_result_advances(s@, i as int);
            }
            if check_char(s, j, ',') {
                proof {
                    assert(j < s.len());
                }
                match parse_items(s, j + 1) {
                    None => None,
                    Some(rest) => {
                        let mut vs = rest.0;
                        let ghost rv = result_view(t.0);
                        let ghost old_views = results_view(vs@);
                        vs.insert(0, t.0);
                        proof {
                            assert(results_view(vs@) =~= seq![rv] + old_views);
                        }
                        Some((vs, rest.1))
                    },
                }
            } else {
                let ghost rv = result_view(t.0);
                let mut out: Vec<ShowResult> = Vec::new();
                out.push(t.0);
                proof {
                    assert(results_view(out@) =~= seq![rv]);
                }
                Some((out, j))
            }
        },
    }
}

/// Parses a structured document back into its results, exactly as
/// [`p_doc`] states: the whole input must be one well-formed document.
pub fn parse_structured(s: &str) -> (r: Option<Vec<ShowResult>>)
    ensures
        match r {
            Some(v) => p_doc(s@) == Some(results_view(v@)),
            None => p_doc(s@) is None,
        },
{
    let chars = str_chars(s);
    if !check_char(&chars, 0, '[') {
        return None;
    }
    if chars.len() == 2 && check_char(&chars, 1, ']') {
        let out: Vec<ShowResult> = Vec::new();
        proof {
            assert(results_view(out@) =~= Seq::<ShowResultV>::empty());
        }
        return Some(out);
    }
    proof {
        assert(1 <= chars@.len());
    }
    match parse_items(&chars, 1) {
        None => None,
        Some(t) => {
            if t.1 == chars.len() - 1 && check_char(&chars, t.1, ']') {
                Some(t.0)
            } else {
                None
            }
        },
    }
}

} // verus!
