//! The canonical single-line textual form of a compacted record.
//!
//! The record is rendered with short fixed field names (`l`, `b`, `m`,
//! `t`, `dt`), components absent from the record are absent from the
//! text, and the line is terminated by exactly one line separator.

use vstd::prelude::*;
use vstd::string::StringExecFns;
use crate::model::{
    CompressedClassifications, CompressedFaceLandmarkerResult, CompressedNormalizedLandmark,
};

verus! {

/// The decimal digit character for `d` (0 through 9).
pub open spec fn digit_char(d: int) -> char {
    if d == 0 {
        '0'
    } else if d == 1 {
        '1'
    } else if d == 2 {
        '2'
    } else if d == 3 {
        '3'
    } else if d == 4 {
        '4'
    } else if d == 5 {
        '5'
    } else if d == 6 {
        '6'
    } else if d == 7 {
        '7'
    } else if d == 8 {
        '8'
    } else {
        '9'
    }
}

/// The decimal digits of `n`, most significant first, no sign and no
/// leading zeros (a lone zero for 0).
pub open spec fn dec_udigits(n: nat) -> Seq<char>
    decreases n,
{
    if n < 10 {
        seq![digit_char(n as int)]
    } else {
        dec_udigits(n / 10).push(digit_char((n % 10) as int))
    }
}

/// The decimal text of `v`: a minus sign for negative values, then the
/// digits of the magnitude.
pub open spec fn dec_int(v: int) -> Seq<char> {
    if v < 0 {
        "-"@ + dec_udigits((-v) as nat)
    } else {
        dec_udigits(v as nat)
    }
}

/// The given parts joined by `sep`.
pub open spec fn joined(parts: Seq<Seq<char>>, sep: Seq<char>) -> Seq<char>
    decreases parts.len(),
{
    if parts.len() == 0 {
        Seq::empty()
    } else if parts.len() == 1 {
        parts[0]
    } else {
        joined(parts.drop_last(), sep) + sep + parts.last()
    }
}

/// The decimal texts of a stream of quantized values.
pub open spec fn int_texts(s: Seq<i32>) -> Seq<Seq<char>> {
    s.map_values(|x: i32| dec_int(x as int))
}

/// A bracketed, comma-separated list of quantized values.
pub open spec fn int_list(s: Seq<i32>) -> Seq<char> {
    "["@ + joined(int_texts(s), ","@) + "]"@
}

/// The textual form of a boolean.
pub open spec fn bool_text(b: bool) -> Seq<char> {
    if b {
        "true"@
    } else {
        "false"@
    }
}

/// The textual form of one compacted landmark set: its flattened point
/// stream and its depth flag.
pub open spec fn landmark_obj(cl: CompressedNormalizedLandmark) -> Seq<char> {
    "{\"p\":"@ + int_list(cl.p@) + ",\"z\":"@ + bool_text(cl.z) + "}"@
}

/// The textual forms of a stream of compacted landmark sets.
pub open spec fn landmark_texts(s: Seq<CompressedNormalizedLandmark>) -> Seq<Seq<char>> {
    s.map_values(|c: CompressedNormalizedLandmark| landmark_obj(c))
}

/// A bracketed, comma-separated list of compacted landmark sets.
pub open spec fn landmark_list(s: Seq<CompressedNormalizedLandmark>) -> Seq<char> {
    "["@ + joined(landmark_texts(s), ","@) + "]"@
}

/// The textual form of one compacted classification group: its three
/// aligned streams.
pub open spec fn blend_obj(cb: CompressedClassifications) -> Seq<char> {
    "{\"s\":"@ + int_list(cb.s@) + ",\"i\":"@ + int_list(cb.i@) + ",\"c\":"@ + int_list(cb.c@)
        + "}"@
}

/// The textual forms of a stream of compacted classification groups.
pub open spec fn blend_texts(s: Seq<CompressedClassifications>) -> Seq<Seq<char>> {
    s.map_values(|c: CompressedClassifications| blend_obj(c))
}

/// A bracketed, comma-separated list of compacted classification groups.
pub open spec fn blend_list(s: Seq<CompressedClassifications>) -> Seq<char> {
    "["@ + joined(blend_texts(s), ","@) + "]"@
}

/// The texts of a matrix's entries, each spliced in as it stands.
pub open spec fn token_texts(s: Seq<String>) -> Seq<Seq<char>> {
    s.map_values(|t: String| t@)
}

/// A bracketed, comma-separated list of one matrix's entries.
pub open spec fn token_list(s: Seq<String>) -> Seq<char> {
    "["@ + joined(token_texts(s), ","@) + "]"@
}

/// The texts of a stream of matrices.
pub open spec fn matrix_texts(ms: Seq<Vec<String>>) -> Seq<Seq<char>> {
    ms.map_values(|m: Vec<String>| token_list(m@))
}

/// A bracketed, comma-separated list of matrices.
pub open spec fn matrix_list(ms: Seq<Vec<String>>) -> Seq<char> {
    "["@ + joined(matrix_texts(ms), ","@) + "]"@
}

/// The `l` field with its trailing comma, or nothing when the component
/// is absent.
pub open spec fn landmarks_part(o: Option<Vec<CompressedNormalizedLandmark>>) -> Seq<char> {
    match o {
        Some(ls) => "\"l\":"@ + landmark_list(ls@) + ","@,
        None => Seq::empty(),
    }
}

/// The `b` field with its trailing comma, or nothing when the component
/// is absent.
pub open spec fn blendshapes_part(o: Option<Vec<CompressedClassifications>>) -> Seq<char> {
    match o {
        Some(bs) => "\"b\":"@ + blend_list(bs@) + ","@,
        None => Seq::empty(),
    }
}

/// The `m` field with its trailing comma, or nothing when the component
/// is absent.
pub open spec fn matrices_part(o: Option<Vec<Vec<String>>>) -> Seq<char> {
    match o {
        Some(ms) => "\"m\":"@ + matrix_list(ms@) + ","@,
        None => Seq::empty(),
    }
}

/// The textual form of a record, without the trailing line separator.
pub open spec fn json_of(rec: CompressedFaceLandmarkerResult) -> Seq<char> {
    "{"@ + landmarks_part(rec.landmarks) + blendshapes_part(rec.blendshapes) + matrices_part(
        rec.matrices,
    ) + "\"t\":"@ + dec_int(rec.t as int) + ",\"dt\":"@ + dec_int(rec.dt as int) + "}"@
}

/// The full textual output: the record's text and one line separator.
pub open spec fn json_line(rec: CompressedFaceLandmarkerResult) -> Seq<char> {
    json_of(rec) + "\n"@
}

/// Text that holds no line separator.
pub open spec fn line_safe(s: Seq<char>) -> bool {
    forall|i: int| 0 <= i < s.len() ==> s[i] != '\n'
}

proof fn lemma_line_safe_concat(a: Seq<char>, b: Seq<char>)
    requires
        line_safe(a),
        line_safe(b),
    ensures
        line_safe(a + b),
{
    assert forall|i: int| 0 <= i < (a + b).len() implies (a + b)[i] != '\n' by {
        if i < a.len() {
            assert((a + b)[i] == a[i]);
        } else {
            assert((a + b)[i] == b[i - a.len()]);
        }
    }
}

proof fn lemma_line_safe_udigits(n: nat)
    ensures
        line_safe(dec_udigits(n)),
    decreases n,
{
    if n >= 10 {
        lemma_line_safe_udigits(n / 10);
        let s = dec_udigits(n / 10);
        let c = digit_char((n % 10) as int);
        assert forall|i: int| 0 <= i < s.push(c).len() implies s.push(c)[i] != '\n' by {
            if i < s.len() {
                assert(s.push(c)[i] == s[i]);
            } else {
                assert(s.push(c)[i] == c);
            }
        }
    }
}

proof fn lemma_line_safe_dec_int(v: int)
    ensures
        line_safe(dec_int(v)),
{
    reveal_strlit("-");
    if v < 0 {
        lemma_line_safe_udigits((-v) as nat);
        lemma_line_safe_concat("-"@, dec_udigits((-v) as nat));
    } else {
        lemma_line_safe_udigits(v as nat);
    }
}

proof fn lemma_line_safe_joined(parts: Seq<Seq<char>>, sep: Seq<char>)
    requires
        line_safe(sep),
        forall|j: int| 0 <= j < parts.len() ==> line_safe(#[trigger] parts[j]),
    ensures
        line_safe(joined(parts, sep)),
    decreases parts.len(),
{
    if parts.len() == 0 {
    } else if parts.len() == 1 {
        assert(line_safe(parts[0]));
    } else {
        let front = parts.drop_last();
        assert(forall|j: int| 0 <= j < front.len() ==> line_safe(#[trigger] front[j]));
        lemma_line_safe_joined(front, sep);
        lemma_line_safe_concat(joined(front, sep), sep);
        assert(line_safe(parts.last()));
        lemma_line_safe_concat(joined(front, sep) + sep, parts.last());
    }
}

proof fn lemma_line_safe_int_list(s: Seq<i32>)
    ensures
        line_safe(int_list(s)),
{
    reveal_strlit("[");
    reveal_strlit(",");
    reveal_strlit("]");
    let texts = int_texts(s);
    assert forall|j: int| 0 <= j < texts.len() implies line_safe(#[trigger] texts[j]) by {
        lemma_line_safe_dec_int(s[j] as int);
    }
    lemma_line_safe_joined(texts, ","@);
    lemma_line_safe_concat("["@, joined(texts, ","@));
    lemma_line_safe_concat("["@ + joined(texts, ","@), "]"@);
}

proof fn lemma_line_safe_landmark_obj(cl: CompressedNormalizedLandmark)
    ensures
        line_safe(landmark_obj(cl)),
{
    reveal_strlit("{\"p\":");
    reveal_strlit(",\"z\":");
    reveal_strlit("true");
    reveal_strlit("false");
    reveal_strlit("}");
    lemma_line_safe_int_list(cl.p@);
    lemma_line_safe_concat("{\"p\":"@, int_list(cl.p@));
    lemma_line_safe_concat("{\"p\":"@ + int_list(cl.p@), ",\"z\":"@);
    lemma_line_safe_concat("{\"p\":"@ + int_list(cl.p@) + ",\"z\":"@, bool_text(cl.z));
    lemma_line_safe_concat("{\"p\":"@ + int_list(cl.p@) + ",\"z\":"@ + bool_text(cl.z), "}"@);
}

proof fn lemma_line_safe_landmark_list(s: Seq<CompressedNormalizedLandmark>)
    ensures
        line_safe(landmark_list(s)),
{
    reveal_strlit("[");
    reveal_strlit(",");
    reveal_strlit("]");
    let texts = landmark_texts(s);
    assert forall|j: int| 0 <= j < texts.len() implies line_safe(#[trigger] texts[j]) by {
        lemma_line_safe_landmark_obj(s[j]);
    }
    lemma_line_safe_joined(texts, ","@);
    lemma_line_safe_concat("["@, joined(texts, ","@));
    lemma_line_safe_concat("["@ + joined(texts, ","@), "]"@);
}

proof fn lemma_line_safe_blend_obj(cb: CompressedClassifications)
    ensures
        line_safe(blend_obj(cb)),
{
    reveal_strlit("{\"s\":");
    reveal_strlit(",\"i\":");
    reveal_strlit(",\"c\":");
    reveal_strlit("}");
    lemma_line_safe_int_list(cb.s@);
    lemma_line_safe_int_list(cb.i@);
    lemma_line_safe_int_list(cb.c@);
    lemma_line_safe_concat("{\"s\":"@, int_list(cb.s@));
    lemma_line_safe_concat("{\"s\":"@ + int_list(cb.s@), ",\"i\":"@);
    lemma_line_safe_concat("{\"s\":"@ + int_list(cb.s@) + ",\"i\":"@, int_list(cb.i@));
    lemma_line_safe_concat(
        "{\"s\":"@ + int_list(cb.s@) + ",\"i\":"@ + int_list(cb.i@),
        ",\"c\":"@,
    );
    lemma_line_safe_concat(
        "{\"s\":"@ + int_list(cb.s@) + ",\"i\":"@ + int_list(cb.i@) + ",\"c\":"@,
        int_list(cb.c@),
    );
    lemma_line_safe_concat(
        "{\"s\":"@ + int_list(cb.s@) + ",\"i\":"@ + int_list(cb.i@) + ",\"c\":"@ + int_list(cb.c@),
        "}"@,
    );
}

proof fn lemma_line_safe_blend_list(s: Seq<CompressedClassifications>)
    ensures
        line_safe(blend_list(s)),
{
    reveal_strlit("[");
    reveal_strlit(",");
    reveal_strlit("]");
    let texts = blend_texts(s);
    assert forall|j: int| 0 <= j < texts.len() implies line_safe(#[trigger] texts[j]) by {
        lemma_line_safe_blend_obj(s[j]);
    }
    lemma_line_safe_joined(texts, ","@);
    lemma_line_safe_concat("["@, joined(texts, ","@));
    lemma_line_safe_concat("["@ + joined(texts, ","@), "]"@);
}

proof fn lemma_line_safe_token_list(s: Seq<String>)
    requires
        forall|j: int| 0 <= j < s.len() ==> crate::model::is_number_token(#[trigger] s[j]@),
    ensures
        line_safe(token_list(s)),
{
    reveal_strlit("[");
    reveal_strlit(",");
    reveal_strlit("]");
    let texts = token_texts(s);
    assert forall|j: int| 0 <= j < texts.len() implies line_safe(#[trigger] texts[j]) by {
        assert(crate::model::is_number_token(s[j]@));
        assert forall|i: int| 0 <= i < s[j]@.len() implies s[j]@[i] != '\n' by {
            assert(crate::model::is_number_char(s[j]@[i]));
        }
    }
    lemma_line_safe_joined(texts, ","@);
    lemma_line_safe_concat("["@, joined(texts, ","@));
    lemma_line_safe_concat("["@ + joined(texts, ","@), "]"@);
}

proof fn lemma_line_safe_matrix_list(ms: Seq<Vec<String>>)
    requires
        forall|i: int, j: int|
            0 <= i < ms.len() && 0 <= j < ms[i]@.len() ==> crate::model::is_number_token(
                #[trigger] ms[i]@[j]@,
            ),
    ensures
        line_safe(matrix_list(ms)),
{
    reveal_strlit("[");
    reveal_strlit(",");
    reveal_strlit("]");
    let texts = matrix_texts(ms);
    assert forall|j: int| 0 <= j < texts.len() implies line_safe(#[trigger] texts[j]) by {
        assert(forall|x: int|
            0 <= x < ms[j]@.len() ==> crate::model::is_number_token(#[trigger] ms[j]@[x]@));
        lemma_line_safe_token_list(ms[j]@);
    }
    lemma_line_safe_joined(texts, ","@);
    lemma_line_safe_concat("["@, joined(texts, ","@));
    lemma_line_safe_concat("["@ + joined(texts, ","@), "]"@);
}

/// The textual form of a well-formed record ends with exactly one line
/// separator: the last character is the separator and no other character
/// of the output is.
pub proof fn lemma_textual_form_single_line(rec: CompressedFaceLandmarkerResult)
    requires
        rec.wf(),
    ensures
        json_line(rec).len() > 0,
        json_line(rec).last() == '\n',
        forall|i: int| 0 <= i < json_line(rec).len() - 1 ==> json_line(rec)[i] != '\n',
{
    reveal_strlit("{");
    reveal_strlit("}");
    reveal_strlit("\"l\":");
    reveal_strlit("\"b\":");
    reveal_strlit("\"m\":");
    reveal_strlit("\"t\":");
    reveal_strlit(",\"dt\":");
    reveal_strlit(",");
    reveal_strlit("\n");
    let body = json_of(rec);
    assert(line_safe(landmarks_part(rec.landmarks))) by {
        match rec.landmarks {
            Some(ls) => {
                lemma_line_safe_landmark_list(ls@);
                lemma_line_safe_concat("\"l\":"@, landmark_list(ls@));
                lemma_line_safe_concat("\"l\":"@ + landmark_list(ls@), ","@);
            },
            None => {},
        }
    }
    assert(line_safe(blendshapes_part(rec.blendshapes))) by {
        match rec.blendshapes {
            Some(bs) => {
                lemma_line_safe_blend_list(bs@);
                lemma_line_safe_concat("\"b\":"@, blend_list(bs@));
                lemma_line_safe_concat("\"b\":"@ + blend_list(bs@), ","@);
            },
            None => {},
        }
    }
    assert(line_safe(matrices_part(rec.matrices))) by {
        match rec.matrices {
            Some(ms) => {
                lemma_line_safe_matrix_list(ms@);
                lemma_line_safe_concat("\"m\":"@, matrix_list(ms@));
                lemma_line_safe_concat("\"m\":"@ + matrix_list(ms@), ","@);
            },
            None => {},
        }
    }
    lemma_line_safe_dec_int(rec.t as int);
    lemma_line_safe_dec_int(rec.dt as int);
    lemma_line_safe_concat("{"@, landmarks_part(rec.landmarks));
    let s1 = "{"@ + landmarks_part(rec.landmarks);
    lemma_line_safe_concat(s1, blendshapes_part(rec.blendshapes));
    let s2 = s1 + blendshapes_part(rec.blendshapes);
    lemma_line_safe_concat(s2, matrices_part(rec.matrices));
    let s3 = s2 + matrices_part(rec.matrices);
    lemma_line_safe_concat(s3, "\"t\":"@);
    let s4 = s3 + "\"t\":"@;
    lemma_line_safe_concat(s4, dec_int(rec.t as int));
    let s5 = s4 + dec_int(rec.t as int);
    lemma_line_safe_concat(s5, ",\"dt\":"@);
    let s6 = s5 + ",\"dt\":"@;
    lemma_line_safe_concat(s6, dec_int(rec.dt as int));
    let s7 = s6 + dec_int(rec.dt as int);
    lemma_line_safe_concat(s7, "}"@);
    assert(body =~= s7 + "}"@);
    assert(line_safe(body));
    assert(json_line(rec).len() == body.len() + 1);
    assert(json_line(rec).last() == "\n"@[0]);
    assert forall|i: int| 0 <= i < json_line(rec).len() - 1 implies json_line(rec)[i] != '\n' by {
        assert(json_line(rec)[i] == body[i]);
    }
}

/// Appending one more part extends a joined list by a separator and the
/// part (by the part alone when the list was empty).
proof fn lemma_joined_push(parts: Seq<Seq<char>>, x: Seq<char>, sep: Seq<char>)
    ensures
        joined(parts.push(x), sep) == (if parts.len() == 0 {
            x
        } else {
            joined(parts, sep) + sep + x
        }),
{
    let p2 = parts.push(x);
    assert(p2.drop_last() =~= parts);
    assert(p2.last() == x);
    if parts.len() == 0 {
        assert(p2[0] == x);
    }
}

fn digit_str(d: u64) -> (r: &'static str)
    requires
        d < 10,
    ensures
        r@ == seq![digit_char(d as int)],
{
    match d {
        0 => {
            proof {
                reveal_strlit("0");
                assert("0"@ =~= seq![digit_char(0)]);
            }
            "0"
        },
        1 => {
            proof {
                reveal_strlit("1");
                assert("1"@ =~= seq![digit_char(1)]);
            }
            "1"
        },
        2 => {
            proof {
                reveal_strlit("2");
                assert("2"@ =~= seq![digit_char(2)]);
            }
            "2"
        },
        3 => {
            proof {
                reveal_strlit("3");
                assert("3"@ =~= seq![digit_char(3)]);
            }
            "3"
        },
        4 => {
            proof {
                reveal_strlit("4");
                assert("4"@ =~= seq![digit_char(4)]);
            }
            "4"
        },
        5 => {
            proof {
                reveal_strlit("5");
                assert("5"@ =~= seq![digit_char(5)]);
            }
            "5"
        },
        6 => {
            proof {
                reveal_strlit("6");
                assert("6"@ =~= seq![digit_char(6)]);
            }
            "6"
        },
        7 => {
            proof {
                reveal_strlit("7");
                assert("7"@ =~= seq![digit_char(7)]);
            }
            "7"
        },
        8 => {
            proof {
                reveal_strlit("8");
                assert("8"@ =~= seq![digit_char(8)]);
            }
            "8"
        },
        _ => {
            proof {
                reveal_strlit("9");
                assert(d == 9);
                assert("9"@ =~= seq![digit_char(9)]);
            }
            "9"
        },
    }
}

fn push_udigits(out: &mut String, n: u64)
    ensures
        final(out)@ == old(out)@ + dec_udigits(n as nat),
    decreases n,
{
    let ghost base = old(out)@;
    if n >= 10 {
        push_udigits(out, n / 10);
        let d = digit_str(n % 10);
        out.append(d);
        proof {
            assert(out@ =~= base + dec_udigits(n as nat));
        }
    } else {
        let d = digit_str(n);
        out.append(d);
        proof {
            assert(out@ =~= base + dec_udigits(n as nat));
        }
    }
}

fn push_dec_i64(out: &mut String, v: i64)
    ensures
        final(out)@ == old(out)@ + dec_int(v as int),
{
    let ghost base = old(out)@;
    if v < 0 {
        out.append("-");
        let m: u64 = (-(v as i128)) as u64;
        push_udigits(out, m);
        proof {
            assert(m as nat == (-(v as int)) as nat);
            assert(out@ =~= base + dec_int(v as int));
        }
    } else {
        push_udigits(out, v as u64);
    }
}

fn push_int_list(out: &mut String, items: &Vec<i32>)
    ensures
        final(out)@ == old(out)@ + int_list(items@),
{
    let ghost base = old(out)@;
    out.append("[");
    let n = items.len();
    let mut k: usize = 0;
    proof {
        assert(int_texts(items@.take(0)) =~= Seq::<Seq<char>>::empty());
        assert(out@ =~= base + "["@ + joined(int_texts(items@.take(0)), ","@));
    }
    while k < n
        invariant
            n == items@.len(),
            k <= n,
            out@ == base + "["@ + joined(int_texts(items@.take(k as int)), ","@),
        decreases n - k,
    {
        if k > 0 {
            out.append(",");
        }
        push_dec_i64(out, items[k] as i64);
        proof {
            assert(int_texts(items@.take(k as int + 1)) =~= int_texts(items@.take(k as int)).push(
                dec_int(items@[k as int] as int),
            ));
            lemma_joined_push(
                int_texts(items@.take(k as int)),
                dec_int(items@[k as int] as int),
                ","@,
            );
            assert(out@ =~= base + "["@ + joined(int_texts(items@.take(k as int + 1)), ","@));
        }
        k += 1;
    }
    out.append("]");
    proof {
        assert(items@.take(n as int) =~= items@);
        assert(out@ =~= base + int_list(items@));
    }
}

fn push_token_list(out: &mut String, items: &Vec<String>)
    ensures
        final(out)@ == old(out)@ + token_list(items@),
{
    let ghost base = old(out)@;
    out.append("[");
    let n = items.len();
    let mut k: usize = 0;
    proof {
        assert(token_texts(items@.take(0)) =~= Seq::<Seq<char>>::empty());
        assert(out@ =~= base + "["@ + joined(token_texts(items@.take(0)), ","@));
    }
    while k < n
        invariant
            n == items@.len(),
            k <= n,
            out@ == base + "["@ + joined(token_texts(items@.take(k as int)), ","@),
        decreases n - k,
    {
        if k > 0 {
            out.append(",");
        }
        let s: &String = &items[k];
        out.append(s.as_str());
        proof {
            assert(token_texts(items@.take(k as int + 1)) =~= token_texts(
                items@.take(k as int),
            ).push(items@[k as int]@));
            lemma_joined_push(token_texts(items@.take(k as int)), items@[k as int]@, ","@);
            assert(out@ =~= base + "["@ + joined(token_texts(items@.take(k as int + 1)), ","@));
        }
        k += 1;
    }
    out.append("]");
    proof {
        assert(items@.take(n as int) =~= items@);
        assert(out@ =~= base + token_list(items@));
    }
}

fn push_landmark_obj(out: &mut String, cl: &CompressedNormalizedLandmark)
    ensures
        final(out)@ == old(out)@ + landmark_obj(*cl),
{
    let ghost base = old(out)@;
    out.append("{\"p\":");
    push_int_list(out, &cl.p);
    out.append(",\"z\":");
    if cl.z {
        out.append("true");
    } else {
        out.append("false");
    }
    out.append("}");
    proof {
        assert(out@ =~= base + landmark_obj(*cl));
    }
}

fn push_landmark_list(out: &mut String, items: &Vec<CompressedNormalizedLandmark>)
    ensures
        final(out)@ == old(out)@ + landmark_list(items@),
{
    let ghost base = old(out)@;
    out.append("[");
    let n = items.len();
    let mut k: usize = 0;
    proof {
        assert(landmark_texts(items@.take(0)) =~= Seq::<Seq<char>>::empty());
        assert(out@ =~= base + "["@ + joined(landmark_texts(items@.take(0)), ","@));
    }
    while k < n
        invariant
            n == items@.len(),
            k <= n,
            out@ == base + "["@ + joined(landmark_texts(items@.take(k as int)), ","@),
        decreases n - k,
    {
        if k > 0 {
            out.append(",");
        }
        push_landmark_obj(out, &items[k]);
        proof {
            assert(landmark_texts(items@.take(k as int + 1)) =~= landmark_texts(
                items@.take(k as int),
            ).push(landmark_obj(items@[k as int])));
            lemma_joined_push(
                landmark_texts(items@.take(k as int)),
                landmark_obj(items@[k as int]),
                ","@,
            );
            assert(out@ =~= base + "["@ + joined(landmark_texts(items@.take(k as int + 1)), ","@));
        }
        k += 1;
    }
    out.append("]");
    proof {
        assert(items@.take(n as int) =~= items@);
        assert(out@ =~= base + landmark_list(items@));
    }
}

fn push_blend_obj(out: &mut String, cb: &CompressedClassifications)
    ensures
        final(out)@ == old(out)@ + blend_obj(*cb),
{
    let ghost base = old(out)@;
    out.append("{\"s\":");
    push_int_list(out, &cb.s);
    out.append(",\"i\":");
    push_int_list(out, &cb.i);
    out.append(",\"c\":");
    push_int_list(out, &cb.c);
    out.append("}");
    proof {
        assert(out@ =~= base + blend_obj(*cb));
    }
}

fn push_blend_list(out: &mut String, items: &Vec<CompressedClassifications>)
    ensures
        final(out)@ == old(out)@ + blend_list(items@),
{
    let ghost base = old(out)@;
    out.append("[");
    let n = items.len();
    let mut k: usize = 0;
    proof {
        assert(blend_texts(items@.take(0)) =~= Seq::<Seq<char>>::empty());
        assert(out@ =~= base + "["@ + joined(blend_texts(items@.take(0)), ","@));
    }
    while k < n
        invariant
            n == items@.len(),
            k <= n,
            out@ == base + "["@ + joined(blend_texts(items@.take(k as int)), ","@),
        decreases n - k,
    {
        if k > 0 {
            out.append(",");
        }
        push_blend_obj(out, &items[k]);
        proof {
            assert(blend_texts(items@.take(k as int + 1)) =~= blend_texts(
                items@.take(k as int),
            ).push(blend_obj(items@[k as int])));
            lemma_joined_push(blend_texts(items@.take(k as int)), blend_obj(items@[k as int]), ","@);
            assert(out@ =~= base + "["@ + joined(blend_texts(items@.take(k as int + 1)), ","@));
        }
        k += 1;
    }
    out.append("]");
    proof {
        assert(items@.take(n as int) =~= items@);
        assert(out@ =~= base + blend_list(items@));
    }
}

fn push_matrix_list(out: &mut String, items: &Vec<Vec<String>>)
    ensures
        final(out)@ == old(out)@ + matrix_list(items@),
{
    let ghost base = old(out)@;
    out.append("[");
    let n = items.len();
    let mut k: usize = 0;
    proof {
        assert(matrix_texts(items@.take(0)) =~= Seq::<Seq<char>>::empty());
        assert(out@ =~= base + "["@ + joined(matrix_texts(items@.take(0)), ","@));
    }
    while k < n
        invariant
            n == items@.len(),
            k <= n,
            out@ == base + "["@ + joined(matrix_texts(items@.take(k as int)), ","@),
        decreases n - k,
    {
        if k > 0 {
            out.append(",");
        }
        push_token_list(out, &items[k]);
        proof {
            assert(matrix_texts(items@.take(k as int + 1)) =~= matrix_texts(
                items@.take(k as int),
            ).push(token_list(items@[k as int]@)));
            lemma_joined_push(
                matrix_texts(items@.take(k as int)),
                token_list(items@[k as int]@),
                ","@,
            );
            assert(out@ =~= base + "["@ + joined(matrix_texts(items@.take(k as int + 1)), ","@));
        }
        k += 1;
    }
    out.append("]");
    proof {
        assert(items@.take(n as int) =~= items@);
        assert(out@ =~= base + matrix_list(items@));
    }
}

/// Render a record as its canonical single-line textual form,
/// terminated by one line separator.
pub fn to_json(rec: &CompressedFaceLandmarkerResult) -> (r: String)
    ensures
        r@ == json_line(*rec),
{
    let mut out = String::new();
    out.append("{");
    match &rec.landmarks {
        Some(ls) => {
            out.append("\"l\":");
            push_landmark_list(&mut out, ls);
            out.append(",");
            proof {
                assert(out@ =~= "{"@ + landmarks_part(rec.landmarks));
            }
        },
        None => {
            proof {
                assert(out@ =~= "{"@ + landmarks_part(rec.landmarks));
            }
        },
    }
    let ghost after_l = out@;
    match &rec.blendshapes {
        Some(bs) => {
            out.append("\"b\":");
            push_blend_list(&mut out, bs);
            out.append(",");
            proof {
                assert(out@ =~= after_l + blendshapes_part(rec.blendshapes));
            }
        },
        None => {
            proof {
                assert(out@ =~= after_l + blendshapes_part(rec.blendshapes));
            }
        },
    }
    let ghost after_b = out@;
    match &rec.matrices {
        Some(ms) => {
            out.append("\"m\":");
            push_matrix_list(&mut out, ms);
            out.append(",");
            proof {
                assert(out@ =~= after_b + matrices_part(rec.matrices));
            }
        },
        None => {
            proof {
                assert(out@ =~= after_b + matrices_part(rec.matrices));
            }
        },
    }
    out.append("\"t\":");
    push_dec_i64(&mut out, rec.t);
    out.append(",\"dt\":");
    push_dec_i64(&mut out, rec.dt);
    out.append("}");
    out.append("\n");
    proof {
        assert(out@ =~= json_line(*rec));
    }
    out
}

} // verus!
