//! The round-trip law of the structured document: parsing what the renderer
//! produced recovers exactly the rendered results, field for field and in
//! order.
use vstd::prelude::*;

use crate::numfmt::{dec_digit, dec_seq};
use crate::structured::{
    at_char, at_lit, config_doc, digit_end, digit_val, esc_char, esc_str, is_dec_digit,
    items_doc, json_string, marking_doc, p_config, p_doc, p_items, p_marking, p_num, p_result,
    p_strbody, p_string, p_strings, pow10, result_doc, results_view, seq_val, strings_doc,
    structured_doc, ConfigV, ShowResultV,
};
use crate::types::MarkingPolicy;

verus! {

/// A text at `i` splits into its two halves.
proof fn lemma_at_lit_split(s: Seq<char>, i: int, a: Seq<char>, b: Seq<char>)
    requires
        at_lit(s, i, a + b),
    ensures
        at_lit(s, i, a),
        at_lit(s, i + a.len(), b),
{
    let ab = a + b;
    assert(s.subrange(i, i + ab.len()) == ab);
    assert forall|k: int| 0 <= k < ab.len() implies s[i + k] == ab[k] by {
        assert(s.subrange(i, i + ab.len())[k] == s[i + k]);
    }
    assert(s.subrange(i, i + a.len()) =~= a);
    assert forall|k: int| 0 <= k < b.len() implies s.subrange(
        i + a.len(),
        i + a.len() + b.len(),
    )[k] == b[k] by {
        assert(s[i + (a.len() + k)] == ab[a.len() + k]);
    }
    assert(s.subrange(i + a.len(), i + a.len() + b.len()) =~= b);
}

/// One character of a text at `i` stands at its position in `s`.
proof fn lemma_at_lit_index(s: Seq<char>, i: int, t: Seq<char>, k: int)
    requires
        at_lit(s, i, t),
        0 <= k < t.len(),
    ensures
        s[i + k] == t[k],
{
    assert(s.subrange(i, i + t.len())[k] == s[i + k]);
}

/// Powers of ten only grow.
proof fn lemma_pow10_grows(a: nat, b: nat)
    requires
        a <= b,
    ensures
        pow10(a) <= pow10(b),
    decreases b,
{
    if a < b {
        lemma_pow10_grows(a, (b - 1) as nat);
    }
}

/// The decimal rendering of `n` is a digit run whose value is `n` again,
/// with its length bounded by the magnitude of `n`.
proof fn lemma_dec_seq_digits(n: nat)
    ensures
        dec_seq(n).len() >= 1,
        forall|k: int| 0 <= k < dec_seq(n).len() ==> is_dec_digit(#[trigger] dec_seq(n)[k]),
        seq_val(dec_seq(n)) == n,
        n < pow10(dec_seq(n).len() as nat),
        n > 0 ==> pow10((dec_seq(n).len() - 1) as nat) <= n,
        n == 0 ==> dec_seq(n).len() == 1,
    decreases n,
{
    if n < 10 {
        let d = dec_seq(n);
        assert(d == seq![dec_digit(n)]);
        assert(d[0] == dec_digit(n));
        assert(digit_val(dec_digit(n)) == n);
        assert(d.drop_last() =~= Seq::<char>::empty());
        assert(seq_val(d) == seq_val(d.drop_last()) * 10 + digit_val(d.last()));
        assert(pow10(0nat) == 1);
        assert(pow10(1nat) == 10);
    } else {
        lemma_dec_seq_digits(n / 10);
        let prev = dec_seq(n / 10);
        let d = dec_seq(n);
        assert(d == prev.push(dec_digit(n % 10)));
        assert(digit_val(dec_digit(n % 10)) == n % 10);
        assert(d.drop_last() =~= prev);
        assert(forall|k: int|
            0 <= k < d.len() ==> is_dec_digit(#[trigger] d[k])) by {
            assert(forall|k: int| 0 <= k < prev.len() ==> d[k] == prev[k]);
        }
        assert(seq_val(d) == seq_val(prev) * 10 + digit_val(d.last()));
        assert(digit_val(d.last()) == n % 10);
        assert(pow10(d.len() as nat) == 10 * pow10(prev.len() as nat));
        assert(n < pow10(d.len() as nat)) by {
            assert(n / 10 + 1 <= pow10(prev.len() as nat));
            assert(n <= 10 * (n / 10) + 9);
        }
        assert(pow10((d.len() - 1) as nat) == 10 * pow10((prev.len() - 1) as nat));
        assert(pow10((prev.len() - 1) as nat) <= n / 10);
    }
}

/// Scanning digits from `i` stops exactly at `j` when everything before `j`
/// is a digit and `j` holds none.
proof fn lemma_digit_end_stops(s: Seq<char>, i: int, j: int)
    requires
        0 <= i <= j <= s.len(),
        forall|m: int| i <= m < j ==> is_dec_digit(#[trigger] s[m]),
        j == s.len() || !is_dec_digit(s[j]),
    ensures
        digit_end(s, i) == j,
    decreases j - i,
{
    if i < j {
        lemma_digit_end_stops(s, i + 1, j);
    }
}

/// A rendered number parses back to itself when followed by a non-digit.
proof fn lemma_p_num_round(s: Seq<char>, i: int, n: u32)
    requires
        at_lit(s, i, dec_seq(n as nat)),
        i + dec_seq(n as nat).len() == s.len() || !is_dec_digit(s[i + dec_seq(n as nat).len()]),
    ensures
        p_num(s, i) == Some((n, i + dec_seq(n as nat).len())),
{
    lemma_dec_seq_digits(n as nat);
    let d = dec_seq(n as nat);
    let j = i + d.len();
    assert(forall|m: int| i <= m < j ==> is_dec_digit(#[trigger] s[m])) by {
        assert(forall|m: int|
            i <= m < j ==> #[trigger] s[m] == s.subrange(i, i + d.len())[m - i]);
    }
    lemma_digit_end_stops(s, i, j);
    assert(s.subrange(i, j) == d);
    assert(d.len() <= 10) by {
        if d.len() > 10 {
            reveal_with_fuel(pow10, 12);
            lemma_pow10_grows(10nat, (d.len() - 1) as nat);
            assert(n as nat >= pow10(10nat));
        }
    }
}

/// A rendered string body parses back to itself.
proof fn lemma_p_strbody_round(s: Seq<char>, i: int, v: Seq<char>)
    requires
        at_lit(s, i, esc_str(v) + seq!['"']),
    ensures
        p_strbody(s, i) == Some((v, i + esc_str(v).len() + 1)),
    decreases v.len(),
{
    if v.len() == 0 {
        assert(esc_str(v) + seq!['"'] =~= seq!['"']);
        lemma_at_lit_index(s, i, seq!['"'], 0);
        assert(s[i] == '"');
        assert(p_strbody(s, i)->Some_0.0 =~= v);
    } else {
        let c = v[0];
        let rest = v.skip(1);
        assert(esc_str(v) == esc_char(c) + esc_str(rest));
        if c == '"' || c == '\\' {
            assert(esc_str(v) + seq!['"'] =~= seq!['\\', c] + (esc_str(rest) + seq!['"']));
            lemma_at_lit_split(s, i, seq!['\\', c], esc_str(rest) + seq!['"']);
            lemma_at_lit_index(s, i, seq!['\\', c], 0);
            lemma_at_lit_index(s, i, seq!['\\', c], 1);
            assert(s[i] == '\\');
            assert(s[i + 1] == c);
            lemma_p_strbody_round(s, i + 2, rest);
            assert(seq![s[i + 1]] + rest =~= v);
        } else {
            assert(esc_str(v) + seq!['"'] =~= seq![c] + (esc_str(rest) + seq!['"']));
            lemma_at_lit_split(s, i, seq![c], esc_str(rest) + seq!['"']);
            lemma_at_lit_index(s, i, seq![c], 0);
            assert(s[i] == c);
            assert(s[i] != '"' && s[i] != '\\');
            lemma_p_strbody_round(s, i + 1, rest);
            assert(seq![s[i]] + rest =~= v);
        }
    }
}

/// A rendered quoted string parses back to itself.
proof fn lemma_p_string_round(s: Seq<char>, i: int, v: Seq<char>)
    requires
        at_lit(s, i, json_string(v)),
    ensures
        p_string(s, i) == Some((v, i + json_string(v).len())),
{
    assert(json_string(v) =~= seq!['"'] + (esc_str(v) + seq!['"']));
    lemma_at_lit_split(s, i, seq!['"'], esc_str(v) + seq!['"']);
    lemma_at_lit_index(s, i, seq!['"'], 0);
    assert(s[i] == '"');
    lemma_p_strbody_round(s, i + 1, v);
}

/// A rendered string list parses back to itself when followed by anything
/// but a comma.
proof fn lemma_p_strings_round(s: Seq<char>, i: int, ps: Seq<Seq<char>>)
    requires
        ps.len() >= 1,
        at_lit(s, i, strings_doc(ps)),
        i + strings_doc(ps).len() == s.len() || s[i + strings_doc(ps).len()] != ',',
    ensures
        p_strings(s, i) == Some((ps, i + strings_doc(ps).len())),
    decreases ps.len(),
{
    if ps.len() == 1 {
        assert(strings_doc(ps) == json_string(ps[0]));
        lemma_p_string_round(s, i, ps[0]);
        let j = i + json_string(ps[0]).len();
        assert(!at_char(s, j, ','));
        assert(p_strings(s, i)->Some_0.0 =~= ps);
    } else {
        let rest = ps.skip(1);
        assert(strings_doc(ps) == json_string(ps[0]) + seq![','] + strings_doc(rest));
        assert(strings_doc(ps) =~= json_string(ps[0]) + (seq![','] + strings_doc(rest)));
        lemma_at_lit_split(s, i, json_string(ps[0]), seq![','] + strings_doc(rest));
        let j = i + json_string(ps[0]).len();
        lemma_at_lit_split(s, j, seq![','], strings_doc(rest));
        lemma_at_lit_index(s, j, seq![','], 0);
        lemma_p_string_round(s, i, ps[0]);
        assert(at_char(s, j, ','));
        lemma_p_strings_round(s, j + 1, rest);
        assert(seq![ps[0]] + rest =~= ps);
    }
}

/// A rendered marking parses back to itself.
proof fn lemma_p_marking_round(s: Seq<char>, i: int, m: Option<MarkingPolicy>)
    requires
        at_lit(s, i, marking_doc(m)),
    ensures
        p_marking(s, i) == Some((m, i + marking_doc(m).len())),
{
    reveal_strlit("null");
    reveal_strlit("{\"flag\":");
    reveal_strlit(",\"mark\":");
    reveal_strlit("}");
    match m {
        None => {
            assert(at_lit(s, i, "null"@));
        },
        Some(p) => {
            let fkey = "{\"flag\":"@;
            let mkey = ",\"mark\":"@;
            let fdigits = dec_seq(p.flag as nat);
            let mdigits = dec_seq(p.mark as nat);
            assert(marking_doc(m) =~= fkey + (fdigits + (mkey + (mdigits + "}"@))));
            lemma_at_lit_split(s, i, fkey, fdigits + (mkey + (mdigits + "}"@)));
            let i1 = i + fkey.len();
            lemma_at_lit_split(s, i1, fdigits, mkey + (mdigits + "}"@));
            let i2 = i1 + fdigits.len();
            lemma_at_lit_split(s, i2, mkey, mdigits + "}"@);
            let i3 = i2 + mkey.len();
            lemma_at_lit_split(s, i3, mdigits, "}"@);
            let i4 = i3 + mdigits.len();
            lemma_at_lit_index(s, i2, mkey, 0);
            assert(s[i2] == ',');
            lemma_p_num_round(s, i1, p.flag);
            lemma_at_lit_index(s, i4, "}"@, 0);
            assert(s[i4] == '}');
            lemma_p_num_round(s, i3, p.mark);
            assert(!at_lit(s, i, "null"@)) by {
                if at_lit(s, i, "null"@) {
                    lemma_at_lit_index(s, i, "null"@, 0);
                    lemma_at_lit_index(s, i, fkey, 0);
                }
            }
            assert(at_char(s, i4, '}'));
        },
    }
}

/// A rendered config parses back to itself.
proof fn lemma_p_config_round(s: Seq<char>, i: int, c: Option<ConfigV>)
    requires
        at_lit(s, i, config_doc(c)),
    ensures
        p_config(s, i) == Some((c, i + config_doc(c).len())),
{
    reveal_strlit("null");
    reveal_strlit("{\"dscp_config\":");
    reveal_strlit(",\"prefixes\":[");
    reveal_strlit("]}");
    match c {
        None => {
            assert(at_lit(s, i, "null"@));
        },
        Some(cv) => {
            let key1 = "{\"dscp_config\":"@;
            let key2 = ",\"prefixes\":["@;
            let mdoc = marking_doc(cv.dscp_config);
            let sdoc = strings_doc(cv.prefixes);
            assert(config_doc(c) =~= key1 + (mdoc + (key2 + (sdoc + "]}"@))));
            lemma_at_lit_split(s, i, key1, mdoc + (key2 + (sdoc + "]}"@)));
            let i1 = i + key1.len();
            lemma_at_lit_split(s, i1, mdoc, key2 + (sdoc + "]}"@));
            let i2 = i1 + mdoc.len();
            lemma_at_lit_split(s, i2, key2, sdoc + "]}"@);
            let k = i2 + key2.len();
            lemma_at_lit_split(s, k, sdoc, "]}"@);
            let e = k + sdoc.len();
            lemma_at_lit_index(s, e, "]}"@, 0);
            lemma_at_lit_index(s, e, "]}"@, 1);
            assert(s[e] == ']' && s[e + 1] == '}');
            assert(!at_lit(s, i, "null"@)) by {
                if at_lit(s, i, "null"@) {
                    lemma_at_lit_index(s, i, "null"@, 0);
                    lemma_at_lit_index(s, i, key1, 0);
                }
            }
            lemma_p_marking_round(s, i1, cv.dscp_config);
            if cv.prefixes.len() == 0 {
                assert(sdoc =~= Seq::<char>::empty());
                assert(e == k);
                assert(at_char(s, k, ']') && at_char(s, k + 1, '}'));
                assert(p_config(s, i)->Some_0.0->Some_0 =~= cv);
            } else {
                assert(sdoc[0] == '"') by {
                    assert(json_string(cv.prefixes[0]).len() >= 1);
                    assert(sdoc[0] == json_string(cv.prefixes[0])[0]);
                }
                lemma_at_lit_index(s, k, sdoc, 0);
                assert(s[k] == '"');
                assert(!at_char(s, k, ']'));
                lemma_p_strings_round(s, k, cv.prefixes);
                assert(at_char(s, e, ']') && at_char(s, e + 1, '}'));
                assert(p_config(s, i)->Some_0.0->Some_0 =~= cv);
            }
        },
    }
}

/// A rendered result parses back to itself.
proof fn lemma_p_result_round(s: Seq<char>, i: int, r: ShowResultV)
    requires
        at_lit(s, i, result_doc(r)),
    ensures
        p_result(s, i) == Some((r, i + result_doc(r).len())),
{
    reveal_strlit("{\"instance\":");
    reveal_strlit(",\"config\":");
    reveal_strlit("}");
    let key1 = "{\"instance\":"@;
    let key2 = ",\"config\":"@;
    let idigits = dec_seq(r.instance as nat);
    let cdoc = config_doc(r.config);
    assert(result_doc(r) =~= key1 + (idigits + (key2 + (cdoc + "}"@))));
    lemma_at_lit_split(s, i, key1, idigits + (key2 + (cdoc + "}"@)));
    let i1 = i + key1.len();
    lemma_at_lit_split(s, i1, idigits, key2 + (cdoc + "}"@));
    let i2 = i1 + idigits.len();
    lemma_at_lit_split(s, i2, key2, cdoc + "}"@);
    let i3 = i2 + key2.len();
    lemma_at_lit_split(s, i3, cdoc, "}"@);
    let e = i3 + cdoc.len();
    lemma_at_lit_index(s, i2, key2, 0);
    assert(s[i2] == ',');
    lemma_p_num_round(s, i1, r.instance);
    lemma_p_config_round(s, i3, r.config);
    lemma_at_lit_index(s, e, "}"@, 0);
    assert(at_char(s, e, '}'));
    assert(p_result(s, i)->Some_0.0 =~= r);
}

/// A rendered item list parses back to itself when followed by anything
/// but a comma.
proof fn lemma_p_items_round(s: Seq<char>, i: int, rs: Seq<ShowResultV>)
    requires
        rs.len() >= 1,
        at_lit(s, i, items_doc(rs)),
        i + items_doc(rs).len() == s.len() || s[i + items_doc(rs).len()] != ',',
    ensures
        p_items(s, i) == Some((rs, i + items_doc(rs).len())),
    decreases rs.len(),
{
    if rs.len() == 1 {
        assert(items_doc(rs) == result_doc(rs[0]));
        lemma_p_result_round(s, i, rs[0]);
        let j = i + result_doc(rs[0]).len();
        assert(!at_char(s, j, ','));
        assert(p_items(s, i)->Some_0.0 =~= rs);
    } else {
        let rest = rs.skip(1);
        assert(items_doc(rs) == result_doc(rs[0]) + seq![','] + items_doc(rest));
        assert(items_doc(rs) =~= result_doc(rs[0]) + (seq![','] + items_doc(rest)));
        lemma_at_lit_split(s, i, result_doc(rs[0]), seq![','] + items_doc(rest));
        let j = i + result_doc(rs[0]).len();
        lemma_at_lit_split(s, j, seq![','], items_doc(rest));
        lemma_at_lit_index(s, j, seq![','], 0);
        lemma_p_result_round(s, i, rs[0]);
        assert(at_char(s, j, ','));
        lemma_p_items_round(s, j + 1, rest);
        assert(seq![rs[0]] + rest =~= rs);
    }
}

/// The round-trip law: parsing a rendered structured document recovers
/// exactly the rendered results — every instance id, every marking flag and
/// mark, every prefix, all in their original order.
pub proof fn lemma_structured_round_trip(rs: Seq<ShowResultV>)
    ensures
        p_doc(structured_doc(rs)) == Some(rs),
{
    let s = structured_doc(rs);
    let items = items_doc(rs);
    assert(s[0] == '[');
    assert(at_char(s, 0, '['));
    if rs.len() == 0 {
        assert(s =~= seq!['[', ']']);
        assert(p_doc(s)->Some_0 =~= rs);
    } else {
        reveal_strlit("{\"instance\":");
        assert(items[0] == '{') by {
            assert(result_doc(rs[0]).len() >= "{\"instance\":"@.len());
            assert(items[0] == result_doc(rs[0])[0]);
            assert(result_doc(rs[0])[0] == "{\"instance\":"@[0]);
        }
        assert(s[1] == items[0]);
        assert(!(s.len() == 2 && s[1] == ']'));
        assert(at_lit(s, 1, items)) by {
            assert(forall|k: int| 0 <= k < items.len() ==> s[1 + k] == #[trigger] items[k]);
            assert(s.subrange(1, 1 + items.len() as int) =~= items);
        }
        assert(s[s.len() - 1] == ']');
        assert(1 + items.len() == s.len() - 1);
        lemma_p_items_round(s, 1, rs);
    }
}

/// The rendering is canonical: the structured document is a function of the
/// fields the results carry, nothing else. Two show runs against an
/// unchanged service state observe the same fields, so they give
/// byte-identical structured output both times.
pub proof fn lemma_structured_deterministic(a: Seq<crate::types::ShowResult>, b: Seq<crate::types::ShowResult>)
    requires
        results_view(a) == results_view(b),
    ensures
        structured_doc(results_view(a)) == structured_doc(results_view(b)),
{
}

} // verus!
