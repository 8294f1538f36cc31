use vstd::prelude::*;
use vstd::string::StrSliceExecFns;
use vstd::string::StringExecFns;

use crate::warning::Warning;
use crate::warning::WarningView;

verus! {

/// Characters that are escaped inside a quoted string of the encoding.
pub open spec fn is_special(c: char) -> bool {
    c == '"' || c == '\\' || c == '\n' || c == '\r' || c == '\t'
}

/// The escape sequence for one character of a quoted string: the five special
/// characters become two-character backslash escapes, everything else stands
/// for itself.
pub open spec fn esc_char(c: char) -> Seq<char> {
    if c == '"' {
        seq!['\\', '"']
    } else if c == '\\' {
        seq!['\\', '\\']
    } else if c == '\n' {
        seq!['\\', 'n']
    } else if c == '\r' {
        seq!['\\', 'r']
    } else if c == '\t' {
        seq!['\\', 't']
    } else {
        seq![c]
    }
}

/// The body of a quoted string of the encoding: each character replaced by
/// its escape sequence.
pub open spec fn esc(s: Seq<char>) -> Seq<char>
    decreases s.len(),
{
    if s.len() == 0 {
        Seq::<char>::empty()
    } else {
        esc_char(s[0]) + esc(s.subrange(1, s.len() as int))
    }
}

proof fn lemma_esc_concat(a: Seq<char>, b: Seq<char>)
    ensures
        esc(a + b) == esc(a) + esc(b),
    decreases a.len(),
{
    if a.len() == 0 {
        assert(a + b =~= b);
        assert(esc(a) + esc(b) =~= esc(b));
    } else {
        let ta = a.subrange(1, a.len() as int);
        assert((a + b).subrange(1, (a + b).len() as int) =~= ta + b);
        lemma_esc_concat(ta, b);
        assert((a + b)[0] == a[0]);
        assert(esc(a + b) =~= esc(a) + esc(b));
    }
}

proof fn lemma_esc_single(c: char)
    ensures
        esc(seq![c]) == esc_char(c),
{
    assert(esc(Seq::<char>::empty()) =~= Seq::<char>::empty());
    assert(seq![c].subrange(1, 1) =~= Seq::<char>::empty());
    assert(seq![c][0] == c);
    assert(esc(seq![c]) =~= esc_char(c) + esc(Seq::<char>::empty()));
    assert(esc(seq![c]) =~= esc_char(c));
}

/// Splitting the escaped form of `s` at character `m` of `s`.
proof fn lemma_esc_split(s: Seq<char>, m: int)
    requires
        0 <= m < s.len(),
    ensures
        esc(s) == esc(s.take(m)) + esc_char(s[m]) + esc(s.skip(m + 1)),
{
    assert(s =~= s.take(m) + seq![s[m]] + s.skip(m + 1));
    lemma_esc_concat(s.take(m) + seq![s[m]], s.skip(m + 1));
    lemma_esc_concat(s.take(m), seq![s[m]]);
    lemma_esc_single(s[m]);
}

proof fn lemma_esc_take_one_more(s: Seq<char>, m: int)
    requires
        0 <= m < s.len(),
    ensures
        esc(s.take(m + 1)) == esc(s.take(m)) + esc_char(s[m]),
{
    assert(s.take(m + 1) =~= s.take(m) + seq![s[m]]);
    lemma_esc_concat(s.take(m), seq![s[m]]);
    lemma_esc_single(s[m]);
}

/// The exact tagged text encoding of a warning model: an object with a `type`
/// discriminator naming the variant, followed by the variant's fields in
/// order, every string quoted with the special characters escaped, and an
/// absent `source` written as `null`.
pub open spec fn spec_encode(v: WarningView) -> Seq<char> {
    match v {
        WarningView::UnknownSection { unknown_section, source } => {
            "{\"type\":\"UnknownSection\",\"unknown_section\":\""@ + esc(unknown_section)
                + "\",\"source\":"@ + (match source {
                Some(src) => "\""@ + esc(src) + "\"}"@,
                None => "null}"@,
            })
        },
        WarningView::NoLocalToml { path } => {
            "{\"type\":\"NoLocalToml\",\"path\":\""@ + esc(path) + "\"}"@
        },
        WarningView::CouldNotReadToml { path, err } => {
            "{\"type\":\"CouldNotReadToml\",\"path\":\""@ + esc(path) + "\",\"err\":\""@ + esc(err)
                + "\"}"@
        },
        WarningView::CouldNotWriteToml { path, err } => {
            "{\"type\":\"CouldNotWriteToml\",\"path\":\""@ + esc(path) + "\",\"err\":\""@ + esc(
                err,
            ) + "\"}"@
        },
        WarningView::CouldNotFixProfile { path, profile, err } => {
            "{\"type\":\"CouldNotFixProfile\",\"path\":\""@ + esc(path) + "\",\"profile\":\""@
                + esc(profile) + "\",\"err\":\""@ + esc(err) + "\"}"@
        },
        WarningView::DeprecatedKey { old, new } => {
            "{\"type\":\"DeprecatedKey\",\"old\":\""@ + esc(old) + "\",\"new\":\""@ + esc(new)
                + "\"}"@
        },
    }
}

/// Appends the escaped form of `s` to `out`.
fn append_escaped(out: &mut String, s: &str)
    ensures
        final(out)@ == old(out)@ + esc(s@),
{
    let ghost base = out@;
    let n = s.unicode_len();
    let mut i: usize = 0;
    while i < n
        invariant
            n == s@.len(),
            i <= n,
            out@ == base + esc(s@.take(i as int)),
        decreases n - i,
    {
        let c = s.get_char(i);
        if c == '"' {
            out.append("\\\"");
            proof {
                reveal_strlit("\\\"");
                assert("\\\""@ =~= esc_char(c));
            }
        } else if c == '\\' {
            out.append("\\\\");
            proof {
                reveal_strlit("\\\\");
                assert("\\\\"@ =~= esc_char(c));
            }
        } else if c == '\n' {
            out.append("\\n");
            proof {
                reveal_strlit("\\n");
                assert("\\n"@ =~= esc_char(c));
            }
        } else if c == '\r' {
            out.append("\\r");
            proof {
                reveal_strlit("\\r");
                assert("\\r"@ =~= esc_char(c));
            }
        } else if c == '\t' {
            out.append("\\t");
            proof {
                reveal_strlit("\\t");
                assert("\\t"@ =~= esc_char(c));
            }
        } else {
            let piece = s.substring_char(i, i + 1);
            out.append(piece);
            proof {
                assert(s@.subrange(i as int, i as int + 1) =~= esc_char(c));
            }
        }
        proof {
            lemma_esc_take_one_more(s@, i as int);
            assert(out@ =~= base + esc(s@.take(i as int + 1)));
        }
        i += 1;
    }
    proof {
        assert(s@.take(n as int) =~= s@);
    }
}

/// A quoted-string body `s0` followed by its closing quote stands in `s` at
/// position `i`.
spec fn valid_at(s: Seq<char>, i: int, s0: Seq<char>) -> bool {
    &&& 0 <= i
    &&& i + esc(s0).len() + 1 <= s.len()
    &&& s.subrange(i, i + esc(s0).len() + 1) == esc(s0) + seq!['"']
}

/// What the text looks like at the scanning position, after `m` characters of
/// the quoted body `s0` have been decoded.
proof fn lemma_valid_at_step(s: Seq<char>, i: int, s0: Seq<char>, m: int)
    requires
        valid_at(s, i, s0),
        0 <= m <= s0.len(),
    ensures
        esc(s0) == esc(s0.take(m)) + esc(s0.skip(m)),
        m < s0.len() ==> esc(s0.skip(m)) == esc_char(s0[m]) + esc(s0.skip(m + 1)),
        m < s0.len() && !is_special(s0[m]) ==> esc_char(s0[m]) == seq![s0[m]] && s[i + esc(
            s0.take(m),
        ).len()] == s0[m],
        m < s0.len() && is_special(s0[m]) ==> esc_char(s0[m]).len() == 2 && s[i + esc(
            s0.take(m),
        ).len()] == '\\' && s[i + esc(s0.take(m)).len() + 1] == esc_char(s0[m])[1],
        m == s0.len() ==> esc(s0.take(m)) == esc(s0) && s[i + esc(s0).len()] == '"',
{
    let whole = esc(s0) + seq!['"'];
    assert forall|k: int| 0 <= k < esc(s0).len() + 1 implies s[i + k] == whole[k] by {
        assert(s.subrange(i, i + esc(s0).len() + 1)[k] == s[i + k]);
    }
    assert(s0 =~= s0.take(m) + s0.skip(m));
    lemma_esc_concat(s0.take(m), s0.skip(m));
    if m < s0.len() {
        let tail = s0.skip(m);
        assert(tail[0] == s0[m]);
        assert(tail.subrange(1, tail.len() as int) =~= s0.skip(m + 1));
        assert(esc(tail) == esc_char(s0[m]) + esc(s0.skip(m + 1)));
        let j = esc(s0.take(m)).len() as int;
        assert(whole[j] == esc_char(s0[m])[0]);
        if is_special(s0[m]) {
            assert(whole[j + 1] == esc_char(s0[m])[1]);
        }
    } else {
        assert(s0.take(m) =~= s0);
        assert(whole[esc(s0).len() as int] == '"');
    }
}

/// Recognizes the exact literal `lit` in `s` at position `i`.
fn eat_lit(s: &str, i: usize, lit: &str) -> (r: Option<usize>)
    requires
        i as int <= s@.len(),
    ensures
        r matches Some(j) ==> i <= j && j as int <= s@.len() && j == i + lit@.len()
            && s@.subrange(i as int, j as int) == lit@,
        (i + lit@.len() <= s@.len() && s@.subrange(
            i as int,
            i as int + lit@.len() as int,
        ) == lit@) ==> (r matches Some(j) && j == i + lit@.len()),
{
    let n = s.unicode_len();
    let m = lit.unicode_len();
    if n - i < m {
        return None;
    }
    let mut k: usize = 0;
    while k < m
        invariant
            k <= m,
            m == lit@.len(),
            n == s@.len(),
            i + m <= n,
            forall|t: int| 0 <= t < k ==> s@[i + t] == lit@[t],
        decreases m - k,
    {
        if s.get_char(i + k) != lit.get_char(k) {
            proof {
                if s@.subrange(i as int, i as int + lit@.len() as int) == lit@ {
                    assert(s@.subrange(i as int, i as int + lit@.len() as int)[k as int] == s@[
                        i + k
                    ]);
                }
            }
            return None;
        }
        k += 1;
    }
    proof {
        assert(s@.subrange(i as int, (i + m) as int) =~= lit@);
    }
    Some(i + m)
}

/// Scans a quoted-string body starting at `i` (just after the opening quote),
/// undoing the escapes, up to and including the closing quote.
fn parse_string(s: &str, i: usize) -> (r: Option<(String, usize)>)
    requires
        i as int <= s@.len(),
    ensures
        r matches Some(tj) ==> i <= tj.1 && tj.1 as int <= s@.len() && tj.1 == i + esc(
            tj.0@,
        ).len() + 1 && s@.subrange(i as int, tj.1 as int) == esc(tj.0@) + seq!['"'],
        forall|s0: Seq<char>|
            valid_at(s@, i as int, s0) ==> (r matches Some(tj) && tj.0@ == s0 && tj.1 == i + esc(
                s0,
            ).len() + 1),
{
    let n = s.unicode_len();
    let mut acc = String::new();
    let mut j = i;
    loop
        invariant
            i <= j,
            j as int <= n as int,
            n == s@.len(),
            s@.subrange(i as int, j as int) == esc(acc@),
            j == i + esc(acc@).len(),
            forall|s0: Seq<char>|
                valid_at(s@, i as int, s0) ==> acc@.len() <= s0.len() && acc@ == s0.take(
                    acc@.len() as int,
                ),
        decreases n - j,
    {
        if j == n {
            proof {
                assert forall|s0: Seq<char>| valid_at(s@, i as int, s0) implies false by {
                    let m = acc@.len() as int;
                    lemma_valid_at_step(s@, i as int, s0, m);
                    assert(esc(s0.take(m)) == esc(acc@));
                    if m < s0.len() {
                        assert(i + esc(s0).len() + 1 <= n);
                    }
                }
            }
            return None;
        }
        let c = s.get_char(j);
        if c == '"' {
            proof {
                assert(s@.subrange(i as int, j as int + 1) =~= esc(acc@) + seq!['"']);
                assert forall|s0: Seq<char>| valid_at(s@, i as int, s0) implies acc@ == s0 by {
                    let m = acc@.len() as int;
                    lemma_valid_at_step(s@, i as int, s0, m);
                    assert(esc(s0.take(m)) == esc(acc@));
                    if m < s0.len() {
                        assert(s@[j as int] != '"');
                    }
                    assert(s0.take(s0.len() as int) =~= s0);
                }
            }
            return Some((acc, j + 1));
        } else if c == '\\' {
            if j + 1 == n {
                proof {
                    assert forall|s0: Seq<char>| valid_at(s@, i as int, s0) implies false by {
                        let m = acc@.len() as int;
                        lemma_valid_at_step(s@, i as int, s0, m);
                        assert(esc(s0.take(m)) == esc(acc@));
                        if m < s0.len() {
                            if is_special(s0[m]) {
                                assert(i + esc(s0).len() + 1 <= n);
                            }
                        }
                    }
                }
                return None;
            }
            let d = s.get_char(j + 1);
            let ghost old_acc = acc@;
            if d == '"' {
                acc.append("\"");
                proof {
                    reveal_strlit("\"");
                    assert(acc@ =~= old_acc + seq!['"']);
                }
            } else if d == '\\' {
                acc.append("\\");
                proof {
                    reveal_strlit("\\");
                    assert(acc@ =~= old_acc + seq!['\\']);
                }
            } else if d == 'n' {
                acc.append("\n");
                proof {
                    reveal_strlit("\n");
                    assert(acc@ =~= old_acc + seq!['\n']);
                }
            } else if d == 'r' {
                acc.append("\r");
                proof {
                    reveal_strlit("\r");
                    assert(acc@ =~= old_acc + seq!['\r']);
                }
            } else if d == 't' {
                acc.append("\t");
                proof {
                    reveal_strlit("\t");
                    assert(acc@ =~= old_acc + seq!['\t']);
                }
            } else {
                proof {
                    assert forall|s0: Seq<char>| valid_at(s@, i as int, s0) implies false by {
                        let m = old_acc.len() as int;
                        lemma_valid_at_step(s@, i as int, s0, m);
                        assert(esc(s0.take(m)) == esc(old_acc));
                        if m == s0.len() {
                            assert(s@[j as int] == '"');
                        } else {
                            if !is_special(s0[m]) {
                                assert(s@[j as int] == s0[m]);
                            } else {
                                assert(s@[j as int + 1] == esc_char(s0[m])[1]);
                            }
                        }
                    }
                }
                return None;
            }
            proof {
                let e = acc@[acc@.len() - 1];
                assert(acc@ == old_acc + seq![e]);
                assert(esc_char(e) == seq!['\\', d]);
                lemma_esc_concat(old_acc, seq![e]);
                lemma_esc_single(e);
                assert(s@.subrange(i as int, j as int + 2) =~= esc(acc@));
                assert forall|s0: Seq<char>|
                    valid_at(s@, i as int, s0) implies acc@.len() <= s0.len() && acc@ == s0.take(
                    acc@.len() as int,
                ) by {
                    let m = old_acc.len() as int;
                    lemma_valid_at_step(s@, i as int, s0, m);
                    assert(esc(s0.take(m)) == esc(old_acc));
                    if m == s0.len() {
                        assert(s@[j as int] == '"');
                    }
                    if !is_special(s0[m]) {
                        assert(s@[j as int] == s0[m]);
                    }
                    assert(s@[j as int + 1] == esc_char(s0[m])[1]);
                    assert(s0[m] == e);
                    assert(acc@ =~= s0.take(m + 1));
                }
            }
            j = j + 2;
        } else if c == '\n' || c == '\r' || c == '\t' {
            proof {
                assert forall|s0: Seq<char>| valid_at(s@, i as int, s0) implies false by {
                    let m = acc@.len() as int;
                    lemma_valid_at_step(s@, i as int, s0, m);
                    assert(esc(s0.take(m)) == esc(acc@));
                    if m == s0.len() {
                        assert(s@[j as int] == '"');
                    } else if !is_special(s0[m]) {
                        assert(s@[j as int] == s0[m]);
                    } else {
                        assert(s@[j as int] == '\\');
                    }
                }
            }
            return None;
        } else {
            let piece = s.substring_char(j, j + 1);
            let ghost old_acc = acc@;
            acc.append(piece);
            proof {
                assert(s@.subrange(j as int, j as int + 1) =~= seq![s@[j as int]]);
                assert(acc@ == old_acc + seq![c]);
                assert(esc_char(c) == seq![c]);
                lemma_esc_concat(old_acc, seq![c]);
                lemma_esc_single(c);
                assert(s@.subrange(i as int, j as int + 1) =~= esc(acc@));
                assert forall|s0: Seq<char>|
                    valid_at(s@, i as int, s0) implies acc@.len() <= s0.len() && acc@ == s0.take(
                    acc@.len() as int,
                ) by {
                    let m = old_acc.len() as int;
                    lemma_valid_at_step(s@, i as int, s0, m);
                    assert(esc(s0.take(m)) == esc(old_acc));
                    if m == s0.len() {
                        assert(s@[j as int] == '"');
                    }
                    if is_special(s0[m]) {
                        assert(s@[j as int] == '\\');
                    }
                    assert(s0[m] == c);
                    assert(acc@ =~= s0.take(m + 1));
                }
            }
            j = j + 1;
        }
    }
}

/// A quoted body followed by its closing quote ends unambiguously: two such
/// readings of the same text decode to the same body.
proof fn lemma_quoted_unambiguous(x: Seq<char>, a: Seq<char>, b: Seq<char>)
    requires
        valid_at(x, 0, a),
        valid_at(x, 0, b),
    ensures
        a == b,
    decreases a.len(),
{
    lemma_valid_at_step(x, 0, a, 0);
    lemma_valid_at_step(x, 0, b, 0);
    assert(a.take(0) =~= Seq::<char>::empty());
    assert(b.take(0) =~= Seq::<char>::empty());
    assert(esc(Seq::<char>::empty()) =~= Seq::<char>::empty());
    if a.len() == 0 {
        if b.len() > 0 {
            assert(x[0] == '"');
            if is_special(b[0]) {
                assert(x[0] == '\\');
            } else {
                assert(x[0] == b[0]);
            }
            assert(false);
        }
        assert(a =~= b);
    } else if b.len() == 0 {
        assert(x[0] == '"');
        if is_special(a[0]) {
            assert(x[0] == '\\');
        } else {
            assert(x[0] == a[0]);
        }
        assert(false);
    } else {
        assert forall|k: int| 0 <= k < esc(a).len() + 1 implies x[k] == (esc(a) + seq!['"'])[k] by {
            lemma_index_of_subrange(x, 0, esc(a).len() as int + 1, k);
        }
        assert forall|k: int| 0 <= k < esc(b).len() + 1 implies x[k] == (esc(b) + seq!['"'])[k] by {
            lemma_index_of_subrange(x, 0, esc(b).len() as int + 1, k);
        }
        if is_special(a[0]) {
            assert(x[0] == '\\');
            assert(!is_special(b[0]) ==> x[0] == b[0] && b[0] != '\\');
            assert(is_special(b[0]));
            assert(x[1] == esc_char(a[0])[1]);
            assert(x[1] == esc_char(b[0])[1]);
            assert(a[0] == b[0]);
        } else {
            assert(x[0] == a[0]);
            assert(is_special(b[0]) ==> x[0] == '\\');
            assert(!is_special(b[0]));
            assert(x[0] == b[0]);
            assert(a[0] == b[0]);
        }
        let d = esc_char(a[0]).len() as int;
        let ta = a.skip(1);
        let tb = b.skip(1);
        let y = x.skip(d);
        assert(esc(a) == esc_char(a[0]) + esc(ta));
        assert(esc(b) == esc_char(b[0]) + esc(tb));
        assert(y.subrange(0, esc(ta).len() as int + 1) =~= esc(ta) + seq!['"']);
        assert(y.subrange(0, esc(tb).len() as int + 1) =~= esc(tb) + seq!['"']);
        lemma_quoted_unambiguous(y, ta, tb);
        assert(a.len() == b.len());
        assert forall|k: int| 0 <= k < a.len() implies a[k] == b[k] by {
            if k > 0 {
                assert(a[k] == ta[k - 1]);
                assert(b[k] == tb[k - 1]);
            }
        }
        assert(a =~= b);
    }
}

/// A quoted body standing at one position of the text is unique.
proof fn lemma_valid_at_unique(s: Seq<char>, i: int, a: Seq<char>, b: Seq<char>)
    requires
        valid_at(s, i, a),
        valid_at(s, i, b),
    ensures
        a == b,
{
    let x = s.skip(i);
    assert(x.subrange(0, esc(a).len() as int + 1) =~= s.subrange(i, i + esc(a).len() + 1));
    assert(x.subrange(0, esc(b).len() as int + 1) =~= s.subrange(i, i + esc(b).len() + 1));
    lemma_quoted_unambiguous(x, a, b);
}

/// The tag region of an encoded warning pins its variant down: encodings of
/// different variants differ at character 9 or 17.
proof fn lemma_tag_chars(s: Seq<char>, v: WarningView)
    requires
        s == spec_encode(v),
    ensures
        s.len() > 18,
        v is UnknownSection ==> s[9] == 'U',
        v is NoLocalToml ==> s[9] == 'N',
        v is CouldNotReadToml ==> s[9] == 'C' && s[17] == 'R',
        v is CouldNotWriteToml ==> s[9] == 'C' && s[17] == 'W',
        v is CouldNotFixProfile ==> s[9] == 'C' && s[17] == 'F',
        v is DeprecatedKey ==> s[9] == 'D',
{
    match v {
        WarningView::UnknownSection { unknown_section, source } => {
            reveal_strlit("{\"type\":\"UnknownSection\",\"unknown_section\":\"");
            let pre = "{\"type\":\"UnknownSection\",\"unknown_section\":\""@;
            assert(s[9] == pre[9]);
        },
        WarningView::NoLocalToml { path } => {
            reveal_strlit("{\"type\":\"NoLocalToml\",\"path\":\"");
            let pre = "{\"type\":\"NoLocalToml\",\"path\":\""@;
            assert(s[9] == pre[9]);
        },
        WarningView::CouldNotReadToml { path, err } => {
            reveal_strlit("{\"type\":\"CouldNotReadToml\",\"path\":\"");
            let pre = "{\"type\":\"CouldNotReadToml\",\"path\":\""@;
            assert(s[9] == pre[9]);
            assert(s[17] == pre[17]);
        },
        WarningView::CouldNotWriteToml { path, err } => {
            reveal_strlit("{\"type\":\"CouldNotWriteToml\",\"path\":\"");
            let pre = "{\"type\":\"CouldNotWriteToml\",\"path\":\""@;
            assert(s[9] == pre[9]);
            assert(s[17] == pre[17]);
        },
        WarningView::CouldNotFixProfile { path, profile, err } => {
            reveal_strlit("{\"type\":\"CouldNotFixProfile\",\"path\":\"");
            let pre = "{\"type\":\"CouldNotFixProfile\",\"path\":\""@;
            assert(s[9] == pre[9]);
            assert(s[17] == pre[17]);
        },
        WarningView::DeprecatedKey { old, new } => {
            reveal_strlit("{\"type\":\"DeprecatedKey\",\"old\":\"");
            let pre = "{\"type\":\"DeprecatedKey\",\"old\":\""@;
            assert(s[9] == pre[9]);
        },
    }
}

/// Where each piece of an encoded `NoLocalToml` warning stands.
proof fn lemma_decomp_no_local(s: Seq<char>, path: Seq<char>)
    requires
        s == spec_encode(WarningView::NoLocalToml { path }),
    ensures
        ({
            let pre = "{\"type\":\"NoLocalToml\",\"path\":\""@;
            let j1 = pre.len() as int;
            let j2 = j1 + esc(path).len() + 1;
            &&& s.subrange(0, j1) == pre
            &&& valid_at(s, j1, path)
            &&& s.subrange(j2, j2 + 1) == "}"@
            &&& s.len() == j2 + 1
        }),
{
    reveal_strlit("{\"type\":\"NoLocalToml\",\"path\":\"");
    reveal_strlit("\"}");
    reveal_strlit("}");
    let pre = "{\"type\":\"NoLocalToml\",\"path\":\""@;
    let j1 = pre.len() as int;
    let j2 = j1 + esc(path).len() as int + 1;
    assert("\"}"@ =~= seq!['"'] + "}"@);
    assert(s.subrange(0, j1) =~= pre);
    assert(s.subrange(j1, j1 + esc(path).len() + 1) =~= esc(path) + seq!['"']);
    assert(s.subrange(j2, j2 + 1) =~= "}"@);
}

fn decode_no_local(s: &str, j1: usize) -> (r: Option<Warning>)
    requires
        j1 as int <= s@.len(),
        s@.subrange(0, j1 as int) == "{\"type\":\"NoLocalToml\",\"path\":\""@,
        j1 as int == "{\"type\":\"NoLocalToml\",\"path\":\""@.len(),
    ensures
        r matches Some(w) ==> s@ == spec_encode(w@),
        forall|v: WarningView| (s@ == #[trigger] spec_encode(v) && v is NoLocalToml) ==> (
        r matches Some(w) && w@ == v),
{
    let n = s.unicode_len();
    match parse_string(s, j1) {
        None => {
            proof {
                assert forall|v: WarningView|
                    s@ == spec_encode(v) && v is NoLocalToml implies false by {
                    match v {
                        WarningView::NoLocalToml { path } => {
                            lemma_decomp_no_local(s@, path);
                        },
                        _ => {},
                    }
                }
            }
            None
        },
        Some((t_path, j2)) => {
            match eat_lit(s, j2, "}") {
                None => {
                    proof {
                        assert forall|v: WarningView|
                            s@ == spec_encode(v) && v is NoLocalToml implies false by {
                            match v {
                                WarningView::NoLocalToml { path } => {
                                    lemma_decomp_no_local(s@, path);
                                },
                                _ => {},
                            }
                        }
                    }
                    None
                },
                Some(j3) => {
                    if j3 == n {
                        let w = Warning::NoLocalToml { path: t_path };
                        proof {
                            reveal_strlit("\"}");
                            reveal_strlit("}");
                            assert(seq!['"'] + "}"@ =~= "\"}"@);
                            assert(s@ =~= s@.subrange(0, j1 as int) + s@.subrange(
                                j1 as int,
                                j2 as int,
                            ) + s@.subrange(j2 as int, j3 as int));
                            assert(s@ =~= spec_encode(w@));
                            assert forall|v: WarningView|
                                s@ == spec_encode(v) && v is NoLocalToml implies w@ == v by {
                                match v {
                                    WarningView::NoLocalToml { path } => {
                                        lemma_decomp_no_local(s@, path);
                                    },
                                    _ => {},
                                }
                            }
                        }
                        Some(w)
                    } else {
                        proof {
                            assert forall|v: WarningView|
                                s@ == spec_encode(v) && v is NoLocalToml implies false by {
                                match v {
                                    WarningView::NoLocalToml { path } => {
                                        lemma_decomp_no_local(s@, path);
                                    },
                                    _ => {},
                                }
                            }
                        }
                        None
                    }
                },
            }
        },
    }
}

/// Where each piece of an encoded `CouldNotReadToml` warning stands.
proof fn lemma_decomp_read(s: Seq<char>, path: Seq<char>, err: Seq<char>)
    requires
        s == spec_encode(WarningView::CouldNotReadToml { path, err }),
    ensures
        ({
            let pre = "{\"type\":\"CouldNotReadToml\",\"path\":\""@;
            let j1 = pre.len() as int;
            let j2 = j1 + esc(path).len() + 1;
            let j3 = j2 + ",\"err\":\""@.len();
            let j4 = j3 + esc(err).len() + 1;
            &&& s.subrange(0, j1) == pre
            &&& valid_at(s, j1, path)
            &&& s.subrange(j2, j3) == ",\"err\":\""@
            &&& valid_at(s, j3, err)
            &&& s.subrange(j4, j4 + 1) == "}"@
            &&& s.len() == j4 + 1
        }),
{
    reveal_strlit("{\"type\":\"CouldNotReadToml\",\"path\":\"");
    reveal_strlit("\",\"err\":\"");
    reveal_strlit(",\"err\":\"");
    reveal_strlit("\"}");
    reveal_strlit("}");
    let pre = "{\"type\":\"CouldNotReadToml\",\"path\":\""@;
    let j1 = pre.len() as int;
    let j2 = j1 + esc(path).len() as int + 1;
    let j3 = j2 + ",\"err\":\""@.len() as int;
    let j4 = j3 + esc(err).len() as int + 1;
    assert("\",\"err\":\""@ =~= seq!['"'] + ",\"err\":\""@);
    assert("\"}"@ =~= seq!['"'] + "}"@);
    assert(s.subrange(0, j1) =~= pre);
    assert(s.subrange(j1, j1 + esc(path).len() + 1) =~= esc(path) + seq!['"']);
    assert(s.subrange(j2, j3) =~= ",\"err\":\""@);
    assert(s.subrange(j3, j3 + esc(err).len() + 1) =~= esc(err) + seq!['"']);
    assert(s.subrange(j4, j4 + 1) =~= "}"@);
}

fn decode_read(s: &str, j1: usize) -> (r: Option<Warning>)
    requires
        j1 as int <= s@.len(),
        s@.subrange(0, j1 as int) == "{\"type\":\"CouldNotReadToml\",\"path\":\""@,
        j1 as int == "{\"type\":\"CouldNotReadToml\",\"path\":\""@.len(),
    ensures
        r matches Some(w) ==> s@ == spec_encode(w@),
        forall|v: WarningView| (s@ == #[trigger] spec_encode(v) && v is CouldNotReadToml) ==> (
        r matches Some(w) && w@ == v),
{
    let n = s.unicode_len();
    let pr = parse_string(s, j1);
    if let Some((t_path, j2)) = pr {
        if let Some(j3) = eat_lit(s, j2, ",\"err\":\"") {
            if let Some((t_err, j4)) = parse_string(s, j3) {
                if let Some(j5) = eat_lit(s, j4, "}") {
                    if j5 == n {
                        let w = Warning::CouldNotReadToml { path: t_path, err: t_err };
                        proof {
                            reveal_strlit("\",\"err\":\"");
                            reveal_strlit(",\"err\":\"");
                            reveal_strlit("\"}");
                            reveal_strlit("}");
                            assert(seq!['"'] + ",\"err\":\""@ =~= "\",\"err\":\""@);
                            assert(seq!['"'] + "}"@ =~= "\"}"@);
                            assert(s@ =~= s@.subrange(0, j1 as int) + s@.subrange(
                                j1 as int,
                                j2 as int,
                            ) + s@.subrange(j2 as int, j3 as int) + s@.subrange(
                                j3 as int,
                                j4 as int,
                            ) + s@.subrange(j4 as int, j5 as int));
                            assert(s@ =~= spec_encode(w@));
                            assert forall|v: WarningView|
                                s@ == spec_encode(v) && v is CouldNotReadToml implies w@ == v by {
                                match v {
                                    WarningView::CouldNotReadToml { path, err } => {
                                        lemma_decomp_read(s@, path, err);
                                    },
                                    _ => {},
                                }
                            }
                        }
                        return Some(w);
                    }
                }
            }
        }
    }
    proof {
        assert forall|v: WarningView|
            s@ == spec_encode(v) && v is CouldNotReadToml implies false by {
            match v {
                WarningView::CouldNotReadToml { path, err } => {
                    lemma_decomp_read(s@, path, err);
                },
                _ => {},
            }
        }
    }
    None
}

/// Where each piece of an encoded `CouldNotWriteToml` warning stands.
proof fn lemma_decomp_write(s: Seq<char>, path: Seq<char>, err: Seq<char>)
    requires
        s == spec_encode(WarningView::CouldNotWriteToml { path, err }),
    ensures
        ({
            let pre = "{\"type\":\"CouldNotWriteToml\",\"path\":\""@;
            let j1 = pre.len() as int;
            let j2 = j1 + esc(path).len() + 1;
            let j3 = j2 + ",\"err\":\""@.len();
            let j4 = j3 + esc(err).len() + 1;
            &&& s.subrange(0, j1) == pre
            &&& valid_at(s, j1, path)
            &&& s.subrange(j2, j3) == ",\"err\":\""@
            &&& valid_at(s, j3, err)
            &&& s.subrange(j4, j4 + 1) == "}"@
            &&& s.len() == j4 + 1
        }),
{
    reveal_strlit("{\"type\":\"CouldNotWriteToml\",\"path\":\"");
    reveal_strlit("\",\"err\":\"");
    reveal_strlit(",\"err\":\"");
    reveal_strlit("\"}");
    reveal_strlit("}");
    let pre = "{\"type\":\"CouldNotWriteToml\",\"path\":\""@;
    let j1 = pre.len() as int;
    let j2 = j1 + esc(path).len() as int + 1;
    let j3 = j2 + ",\"err\":\""@.len() as int;
    let j4 = j3 + esc(err).len() as int + 1;
    assert("\",\"err\":\""@ =~= seq!['"'] + ",\"err\":\""@);
    assert("\"}"@ =~= seq!['"'] + "}"@);
    assert(s.subrange(0, j1) =~= pre);
    assert(s.subrange(j1, j1 + esc(path).len() + 1) =~= esc(path) + seq!['"']);
    assert(s.subrange(j2, j3) =~= ",\"err\":\""@);
    assert(s.subrange(j3, j3 + esc(err).len() + 1) =~= esc(err) + seq!['"']);
    assert(s.subrange(j4, j4 + 1) =~= "}"@);
}

fn decode_write(s: &str, j1: usize) -> (r: Option<Warning>)
    requires
        j1 as int <= s@.len(),
        s@.subrange(0, j1 as int) == "{\"type\":\"CouldNotWriteToml\",\"path\":\""@,
        j1 as int == "{\"type\":\"CouldNotWriteToml\",\"path\":\""@.len(),
    ensures
        r matches Some(w) ==> s@ == spec_encode(w@),
        forall|v: WarningView| (s@ == #[trigger] spec_encode(v) && v is CouldNotWriteToml) ==> (
        r matches Some(w) && w@ == v),
{
    let n = s.unicode_len();
    let pr = parse_string(s, j1);
    if let Some((t_path, j2)) = pr {
        if let Some(j3) = eat_lit(s, j2, ",\"err\":\"") {
            if let Some((t_err, j4)) = parse_string(s, j3) {
                if let Some(j5) = eat_lit(s, j4, "}") {
                    if j5 == n {
                        let w = Warning::CouldNotWriteToml { path: t_path, err: t_err };
                        proof {
                            reveal_strlit("\",\"err\":\"");
                            reveal_strlit(",\"err\":\"");
                            reveal_strlit("\"}");
                            reveal_strlit("}");
                            assert(seq!['"'] + ",\"err\":\""@ =~= "\",\"err\":\""@);
                            assert(seq!['"'] + "}"@ =~= "\"}"@);
                            assert(s@ =~= s@.subrange(0, j1 as int) + s@.subrange(
                                j1 as int,
                                j2 as int,
                            ) + s@.subrange(j2 as int, j3 as int) + s@.subrange(
                                j3 as int,
                                j4 as int,
                            ) + s@.subrange(j4 as int, j5 as int));
                            assert(s@ =~= spec_encode(w@));
                            assert forall|v: WarningView|
                                s@ == spec_encode(v) && v is CouldNotWriteToml implies w@ == v by {
                                match v {
                                    WarningView::CouldNotWriteToml { path, err } => {
                                        lemma_decomp_write(s@, path, err);
                                    },
                                    _ => {},
                                }
                            }
                        }
                        return Some(w);
                    }
                }
            }
        }
    }
    proof {
        assert forall|v: WarningView|
            s@ == spec_encode(v) && v is CouldNotWriteToml implies false by {
            match v {
                WarningView::CouldNotWriteToml { path, err } => {
                    lemma_decomp_write(s@, path, err);
                },
                _ => {},
            }
        }
    }
    None
}

/// Where each piece of an encoded `DeprecatedKey` warning stands.
proof fn lemma_decomp_deprecated(s: Seq<char>, old_key: Seq<char>, new_key: Seq<char>)
    requires
        s == spec_encode(WarningView::DeprecatedKey { old: old_key, new: new_key }),
    ensures
        ({
            let pre = "{\"type\":\"DeprecatedKey\",\"old\":\""@;
            let j1 = pre.len() as int;
            let j2 = j1 + esc(old_key).len() + 1;
            let j3 = j2 + ",\"new\":\""@.len();
            let j4 = j3 + esc(new_key).len() + 1;
            &&& s.subrange(0, j1) == pre
            &&& valid_at(s, j1, old_key)
            &&& s.subrange(j2, j3) == ",\"new\":\""@
            &&& valid_at(s, j3, new_key)
            &&& s.subrange(j4, j4 + 1) == "}"@
            &&& s.len() == j4 + 1
        }),
{
    reveal_strlit("{\"type\":\"DeprecatedKey\",\"old\":\"");
    reveal_strlit("\",\"new\":\"");
    reveal_strlit(",\"new\":\"");
    reveal_strlit("\"}");
    reveal_strlit("}");
    let pre = "{\"type\":\"DeprecatedKey\",\"old\":\""@;
    let j1 = pre.len() as int;
    let j2 = j1 + esc(old_key).len() as int + 1;
    let j3 = j2 + ",\"new\":\""@.len() as int;
    let j4 = j3 + esc(new_key).len() as int + 1;
    assert("\",\"new\":\""@ =~= seq!['"'] + ",\"new\":\""@);
    assert("\"}"@ =~= seq!['"'] + "}"@);
    assert(s.subrange(0, j1) =~= pre);
    assert(s.subrange(j1, j1 + esc(old_key).len() + 1) =~= esc(old_key) + seq!['"']);
    assert(s.subrange(j2, j3) =~= ",\"new\":\""@);
    assert(s.subrange(j3, j3 + esc(new_key).len() + 1) =~= esc(new_key) + seq!['"']);
    assert(s.subrange(j4, j4 + 1) =~= "}"@);
}

fn decode_deprecated(s: &str, j1: usize) -> (r: Option<Warning>)
    requires
        j1 as int <= s@.len(),
        s@.subrange(0, j1 as int) == "{\"type\":\"DeprecatedKey\",\"old\":\""@,
        j1 as int == "{\"type\":\"DeprecatedKey\",\"old\":\""@.len(),
    ensures
        r matches Some(w) ==> s@ == spec_encode(w@),
        forall|v: WarningView| (s@ == #[trigger] spec_encode(v) && v is DeprecatedKey) ==> (
        r matches Some(w) && w@ == v),
{
    let n = s.unicode_len();
    let pr = parse_string(s, j1);
    if let Some((t_old, j2)) = pr {
        if let Some(j3) = eat_lit(s, j2, ",\"new\":\"") {
            if let Some((t_new, j4)) = parse_string(s, j3) {
                if let Some(j5) = eat_lit(s, j4, "}") {
                    if j5 == n {
                        let w = Warning::DeprecatedKey { old: t_old, new: t_new };
                        proof {
                            reveal_strlit("\",\"new\":\"");
                            reveal_strlit(",\"new\":\"");
                            reveal_strlit("\"}");
                            reveal_strlit("}");
                            assert(seq!['"'] + ",\"new\":\""@ =~= "\",\"new\":\""@);
                            assert(seq!['"'] + "}"@ =~= "\"}"@);
                            assert(s@ =~= s@.subrange(0, j1 as int) + s@.subrange(
                                j1 as int,
                                j2 as int,
                            ) + s@.subrange(j2 as int, j3 as int) + s@.subrange(
                                j3 as int,
                                j4 as int,
                            ) + s@.subrange(j4 as int, j5 as int));
                            assert(s@ =~= spec_encode(w@));
                            assert forall|v: WarningView|
                                s@ == spec_encode(v) && v is DeprecatedKey implies w@ == v by {
                                match v {
                                    WarningView::DeprecatedKey { old, new } => {
                                        lemma_decomp_deprecated(s@, old, new);
                                    },
                                    _ => {},
                                }
                            }
                        }
                        return Some(w);
                    }
                }
            }
        }
    }
    proof {
        assert forall|v: WarningView|
            s@ == spec_encode(v) && v is DeprecatedKey implies false by {
            match v {
                WarningView::DeprecatedKey { old, new } => {
                    lemma_decomp_deprecated(s@, old, new);
                },
                _ => {},
            }
        }
    }
    None
}

/// Where each piece of an encoded `CouldNotFixProfile` warning stands.
proof fn lemma_decomp_fix(s: Seq<char>, path: Seq<char>, profile: Seq<char>, err: Seq<char>)
    requires
        s == spec_encode(WarningView::CouldNotFixProfile { path, profile, err }),
    ensures
        ({
            let pre = "{\"type\":\"CouldNotFixProfile\",\"path\":\""@;
            let j1 = pre.len() as int;
            let j2 = j1 + esc(path).len() + 1;
            let j3 = j2 + ",\"profile\":\""@.len();
            let j4 = j3 + esc(profile).len() + 1;
            let j5 = j4 + ",\"err\":\""@.len();
            let j6 = j5 + esc(err).len() + 1;
            &&& s.subrange(0, j1) == pre
            &&& valid_at(s, j1, path)
            &&& s.subrange(j2, j3) == ",\"profile\":\""@
            &&& valid_at(s, j3, profile)
            &&& s.subrange(j4, j5) == ",\"err\":\""@
            &&& valid_at(s, j5, err)
            &&& s.subrange(j6, j6 + 1) == "}"@
            &&& s.len() == j6 + 1
        }),
{
    reveal_strlit("{\"type\":\"CouldNotFixProfile\",\"path\":\"");
    reveal_strlit("\",\"profile\":\"");
    reveal_strlit(",\"profile\":\"");
    reveal_strlit("\",\"err\":\"");
    reveal_strlit(",\"err\":\"");
    reveal_strlit("\"}");
    reveal_strlit("}");
    let pre = "{\"type\":\"CouldNotFixProfile\",\"path\":\""@;
    let j1 = pre.len() as int;
    let j2 = j1 + esc(path).len() as int + 1;
    let j3 = j2 + ",\"profile\":\""@.len() as int;
    let j4 = j3 + esc(profile).len() as int + 1;
    let j5 = j4 + ",\"err\":\""@.len() as int;
    let j6 = j5 + esc(err).len() as int + 1;
    assert("\",\"profile\":\""@ =~= seq!['"'] + ",\"profile\":\""@);
    assert("\",\"err\":\""@ =~= seq!['"'] + ",\"err\":\""@);
    assert("\"}"@ =~= seq!['"'] + "}"@);
    assert(s.subrange(0, j1) =~= pre);
    assert(s.subrange(j1, j1 + esc(path).len() + 1) =~= esc(path) + seq!['"']);
    assert(s.subrange(j2, j3) =~= ",\"profile\":\""@);
    assert(s.subrange(j3, j3 + esc(profile).len() + 1) =~= esc(profile) + seq!['"']);
    assert(s.subrange(j4, j5) =~= ",\"err\":\""@);
    assert(s.subrange(j5, j5 + esc(err).len() + 1) =~= esc(err) + seq!['"']);
    assert(s.subrange(j6, j6 + 1) =~= "}"@);
}

fn decode_fix(s: &str, j1: usize) -> (r: Option<Warning>)
    requires
        j1 as int <= s@.len(),
        s@.subrange(0, j1 as int) == "{\"type\":\"CouldNotFixProfile\",\"path\":\""@,
        j1 as int == "{\"type\":\"CouldNotFixProfile\",\"path\":\""@.len(),
    ensures
        r matches Some(w) ==> s@ == spec_encode(w@),
        forall|v: WarningView| (s@ == #[trigger] spec_encode(v) && v is CouldNotFixProfile) ==> (
        r matches Some(w) && w@ == v),
{
    let n = s.unicode_len();
    let pr = parse_string(s, j1);
    if let Some((t_path, j2)) = pr {
        if let Some(j3) = eat_lit(s, j2, ",\"profile\":\"") {
            if let Some((t_profile, j4)) = parse_string(s, j3) {
                if let Some(j5) = eat_lit(s, j4, ",\"err\":\"") {
                    if let Some((t_err, j6)) = parse_string(s, j5) {
                        if let Some(j7) = eat_lit(s, j6, "}") {
                            if j7 == n {
                                let w = Warning::CouldNotFixProfile {
                                    path: t_path,
                                    profile: t_profile,
                                    err: t_err,
                                };
                                proof {
                                    reveal_strlit("\",\"profile\":\"");
                                    reveal_strlit(",\"profile\":\"");
                                    reveal_strlit("\",\"err\":\"");
                                    reveal_strlit(",\"err\":\"");
                                    reveal_strlit("\"}");
                                    reveal_strlit("}");
                                    assert(seq!['"'] + ",\"profile\":\""@ =~= "\",\"profile\":\""@);
                                    assert(seq!['"'] + ",\"err\":\""@ =~= "\",\"err\":\""@);
                                    assert(seq!['"'] + "}"@ =~= "\"}"@);
                                    assert(s@ =~= s@.subrange(0, j1 as int) + s@.subrange(
                                        j1 as int,
                                        j2 as int,
                                    ) + s@.subrange(j2 as int, j3 as int) + s@.subrange(
                                        j3 as int,
                                        j4 as int,
                                    ) + s@.subrange(j4 as int, j5 as int) + s@.subrange(
                                        j5 as int,
                                        j6 as int,
                                    ) + s@.subrange(j6 as int, j7 as int));
                                    assert(s@ =~= spec_encode(w@));
                                    assert forall|v: WarningView|
                                        s@ == spec_encode(v)
                                            && v is CouldNotFixProfile implies w@ == v by {
                                        match v {
                                            WarningView::CouldNotFixProfile {
                                                path,
                                                profile,
                                                err,
                                            } => {
                                                lemma_decomp_fix(s@, path, profile, err);
                                            },
                                            _ => {},
                                        }
                                    }
                                }
                                return Some(w);
                            }
                        }
                    }
                }
            }
        }
    }
    proof {
        assert forall|v: WarningView|
            s@ == spec_encode(v) && v is CouldNotFixProfile implies false by {
            match v {
                WarningView::CouldNotFixProfile { path, profile, err } => {
                    lemma_decomp_fix(s@, path, profile, err);
                },
                _ => {},
            }
        }
    }
    None
}

proof fn lemma_index_of_subrange(s: Seq<char>, a: int, b: int, k: int)
    requires
        0 <= a <= b <= s.len(),
        0 <= k < b - a,
    ensures
        s.subrange(a, b)[k] == s[a + k],
{
}

/// Where each piece of an encoded `UnknownSection` warning stands.
proof fn lemma_decomp_unknown(s: Seq<char>, unknown_section: Seq<char>, source: Option<Seq<char>>)
    requires
        s == spec_encode(WarningView::UnknownSection { unknown_section, source }),
    ensures
        ({
            let pre = "{\"type\":\"UnknownSection\",\"unknown_section\":\""@;
            let j1 = pre.len() as int;
            let j2 = j1 + esc(unknown_section).len() + 1;
            let j3 = j2 + ",\"source\":"@.len();
            &&& s.subrange(0, j1) == pre
            &&& valid_at(s, j1, unknown_section)
            &&& s.subrange(j2, j3) == ",\"source\":"@
            &&& (source is None ==> s.subrange(j3, j3 + 5) == "null}"@ && s.len() == j3 + 5)
            &&& (source matches Some(src) ==> s.subrange(j3, j3 + 1) == "\""@ && valid_at(
                s,
                j3 + 1,
                src,
            ) && s.subrange(j3 + 1 + esc(src).len() + 1, j3 + 1 + esc(src).len() + 2) == "}"@
                && s.len() == j3 + 1 + esc(src).len() + 2)
        }),
{
    reveal_strlit("{\"type\":\"UnknownSection\",\"unknown_section\":\"");
    reveal_strlit("\",\"source\":");
    reveal_strlit(",\"source\":");
    reveal_strlit("null}");
    reveal_strlit("\"");
    reveal_strlit("\"}");
    reveal_strlit("}");
    let pre = "{\"type\":\"UnknownSection\",\"unknown_section\":\""@;
    let j1 = pre.len() as int;
    let j2 = j1 + esc(unknown_section).len() as int + 1;
    let j3 = j2 + ",\"source\":"@.len() as int;
    assert("\",\"source\":"@ =~= seq!['"'] + ",\"source\":"@);
    assert("\"}"@ =~= seq!['"'] + "}"@);
    assert(s.subrange(0, j1) =~= pre);
    assert(s.subrange(j1, j1 + esc(unknown_section).len() + 1) =~= esc(unknown_section)
        + seq!['"']);
    assert(s.subrange(j2, j3) =~= ",\"source\":"@);
    match source {
        None => {
            assert(s.subrange(j3, j3 + 5) =~= "null}"@);
        },
        Some(src) => {
            assert(s.subrange(j3, j3 + 1) =~= "\""@);
            assert(s.subrange(j3 + 1, j3 + 1 + esc(src).len() + 1) =~= esc(src) + seq!['"']);
            assert(s.subrange(j3 + 1 + esc(src).len() + 1, j3 + 1 + esc(src).len() + 2) =~= "}"@);
        },
    }
}

fn decode_unknown(s: &str, j1: usize) -> (r: Option<Warning>)
    requires
        j1 as int <= s@.len(),
        s@.subrange(0, j1 as int) == "{\"type\":\"UnknownSection\",\"unknown_section\":\""@,
        j1 as int == "{\"type\":\"UnknownSection\",\"unknown_section\":\""@.len(),
    ensures
        r matches Some(w) ==> s@ == spec_encode(w@),
        forall|v: WarningView| (s@ == #[trigger] spec_encode(v) && v is UnknownSection) ==> (
        r matches Some(w) && w@ == v),
{
    let n = s.unicode_len();
    let pr = parse_string(s, j1);
    if let Some((t_u, j2)) = pr {
        if let Some(j3) = eat_lit(s, j2, ",\"source\":") {
            if let Some(j4) = eat_lit(s, j3, "null}") {
                if j4 == n {
                    let w = Warning::UnknownSection { unknown_section: t_u, source: None };
                    proof {
                        reveal_strlit("\",\"source\":");
                        reveal_strlit(",\"source\":");
                        reveal_strlit("null}");
                        reveal_strlit("\"");
                        assert(seq!['"'] + ",\"source\":"@ =~= "\",\"source\":"@);
                        assert(s@ =~= s@.subrange(0, j1 as int) + s@.subrange(j1 as int, j2 as int)
                            + s@.subrange(j2 as int, j3 as int) + s@.subrange(
                            j3 as int,
                            j4 as int,
                        ));
                        assert(s@ =~= spec_encode(w@));
                        assert forall|v: WarningView|
                            s@ == spec_encode(v) && v is UnknownSection implies w@ == v by {
                            match v {
                                WarningView::UnknownSection { unknown_section, source } => {
                                    lemma_decomp_unknown(s@, unknown_section, source);
                                    match source {
                                        Some(src) => {
                                            assert(s@[j3 as int] == '"');
                                            assert(s@[j3 as int] == 'n');
                                        },
                                        None => {},
                                    }
                                },
                                _ => {},
                            }
                        }
                    }
                    return Some(w);
                }
                proof {
                    reveal_strlit("null}");
                    reveal_strlit("\"");
                    lemma_index_of_subrange(s@, j3 as int, j4 as int, 0);
                    assert(s@[j3 as int] == 'n');
                    assert forall|v: WarningView|
                        s@ == spec_encode(v) && v is UnknownSection implies false by {
                        match v {
                            WarningView::UnknownSection { unknown_section, source } => {
                                lemma_decomp_unknown(s@, unknown_section, source);
                                match source {
                                    None => {},
                                    Some(src) => {
                                        lemma_index_of_subrange(s@, j3 as int, j3 as int + 1, 0);
                                        assert(s@[j3 as int] == '"');
                                    },
                                }
                            },
                            _ => {},
                        }
                    }
                }
                return None;
            } else {
                if let Some(j4) = eat_lit(s, j3, "\"") {
                    if let Some((t_s, j5)) = parse_string(s, j4) {
                        if let Some(j6) = eat_lit(s, j5, "}") {
                            if j6 == n {
                                let w = Warning::UnknownSection {
                                    unknown_section: t_u,
                                    source: Some(t_s),
                                };
                                proof {
                                    reveal_strlit("\",\"source\":");
                                    reveal_strlit(",\"source\":");
                                    reveal_strlit("null}");
                                    reveal_strlit("\"");
                                    reveal_strlit("\"}");
                                    reveal_strlit("}");
                                    assert(seq!['"'] + ",\"source\":"@ =~= "\",\"source\":"@);
                                    assert(seq!['"'] + "}"@ =~= "\"}"@);
                                    assert(s@ =~= s@.subrange(0, j1 as int) + s@.subrange(
                                        j1 as int,
                                        j2 as int,
                                    ) + s@.subrange(j2 as int, j3 as int) + s@.subrange(
                                        j3 as int,
                                        j4 as int,
                                    ) + s@.subrange(j4 as int, j5 as int) + s@.subrange(
                                        j5 as int,
                                        j6 as int,
                                    ));
                                    assert(s@ =~= spec_encode(w@));
                                    assert forall|v: WarningView|
                                        s@ == spec_encode(v)
                                            && v is UnknownSection implies w@ == v by {
                                        match v {
                                            WarningView::UnknownSection {
                                                unknown_section,
                                                source,
                                            } => {
                                                lemma_decomp_unknown(s@, unknown_section, source);
                                                match source {
                                                    None => {
                                                        assert(s@[j3 as int] == 'n');
                                                        assert(s@[j3 as int] == '"');
                                                    },
                                                    Some(src) => {},
                                                }
                                            },
                                            _ => {},
                                        }
                                    }
                                }
                                return Some(w);
                            }
                            proof {
                                reveal_strlit("null}");
                                reveal_strlit("\"");
                                lemma_index_of_subrange(s@, j3 as int, j4 as int, 0);
                                assert(s@[j3 as int] == '"');
                                assert forall|v: WarningView|
                                    s@ == spec_encode(v) && v is UnknownSection implies false by {
                                    match v {
                                        WarningView::UnknownSection {
                                            unknown_section,
                                            source,
                                        } => {
                                            lemma_decomp_unknown(s@, unknown_section, source);
                                            match source {
                                                None => {
                                                    lemma_index_of_subrange(
                                                        s@,
                                                        j3 as int,
                                                        j3 as int + 5,
                                                        0,
                                                    );
                                                    assert(s@[j3 as int] == 'n');
                                                },
                                                Some(src) => {},
                                            }
                                        },
                                        _ => {},
                                    }
                                }
                            }
                            return None;
                        }
                    }
                }
            }
        }
    }
    proof {
        reveal_strlit("null}");
        reveal_strlit("\"");
        assert forall|v: WarningView|
            s@ == spec_encode(v) && v is UnknownSection implies false by {
            match v {
                WarningView::UnknownSection { unknown_section, source } => {
                    lemma_decomp_unknown(s@, unknown_section, source);
                    match source {
                        None => {},
                        Some(src) => {},
                    }
                },
                _ => {},
            }
        }
    }
    None
}

/// The encoding is lossless: two warnings with the same encoding are the same
/// warning, so decoding an encoded warning can only give that warning back.
pub proof fn lemma_encode_injective(v1: WarningView, v2: WarningView)
    requires
        spec_encode(v1) == spec_encode(v2),
    ensures
        v1 == v2,
{
    let s = spec_encode(v1);
    lemma_tag_chars(s, v1);
    lemma_tag_chars(s, v2);
    match (v1, v2) {
        (
            WarningView::UnknownSection { unknown_section: u1, source: s1 },
            WarningView::UnknownSection { unknown_section: u2, source: s2 },
        ) => {
            lemma_decomp_unknown(s, u1, s1);
            lemma_decomp_unknown(s, u2, s2);
            let pre = "{\"type\":\"UnknownSection\",\"unknown_section\":\""@;
            let j1 = pre.len() as int;
            lemma_valid_at_unique(s, j1, u1, u2);
            let j2 = j1 + esc(u1).len() + 1;
            let j3 = j2 + ",\"source\":"@.len();
            match (s1, s2) {
                (None, None) => {},
                (None, Some(x2)) => {
                    reveal_strlit("null}");
                    reveal_strlit("\"");
                    lemma_index_of_subrange(s, j3, j3 + 5, 0);
                    lemma_index_of_subrange(s, j3, j3 + 1, 0);
                    assert(s[j3] == 'n');
                    assert(s[j3] == '"');
                },
                (Some(x1), None) => {
                    reveal_strlit("null}");
                    reveal_strlit("\"");
                    lemma_index_of_subrange(s, j3, j3 + 5, 0);
                    lemma_index_of_subrange(s, j3, j3 + 1, 0);
                    assert(s[j3] == 'n');
                    assert(s[j3] == '"');
                },
                (Some(x1), Some(x2)) => {
                    lemma_valid_at_unique(s, j3 + 1, x1, x2);
                },
            }
        },
        (
            WarningView::NoLocalToml { path: p1 },
            WarningView::NoLocalToml { path: p2 },
        ) => {
            lemma_decomp_no_local(s, p1);
            lemma_decomp_no_local(s, p2);
            let j1 = "{\"type\":\"NoLocalToml\",\"path\":\""@.len() as int;
            lemma_valid_at_unique(s, j1, p1, p2);
        },
        (
            WarningView::CouldNotReadToml { path: p1, err: e1 },
            WarningView::CouldNotReadToml { path: p2, err: e2 },
        ) => {
            lemma_decomp_read(s, p1, e1);
            lemma_decomp_read(s, p2, e2);
            let j1 = "{\"type\":\"CouldNotReadToml\",\"path\":\""@.len() as int;
            lemma_valid_at_unique(s, j1, p1, p2);
            let j3 = j1 + esc(p1).len() + 1 + ",\"err\":\""@.len();
            lemma_valid_at_unique(s, j3, e1, e2);
        },
        (
            WarningView::CouldNotWriteToml { path: p1, err: e1 },
            WarningView::CouldNotWriteToml { path: p2, err: e2 },
        ) => {
            lemma_decomp_write(s, p1, e1);
            lemma_decomp_write(s, p2, e2);
            let j1 = "{\"type\":\"CouldNotWriteToml\",\"path\":\""@.len() as int;
            lemma_valid_at_unique(s, j1, p1, p2);
            let j3 = j1 + esc(p1).len() + 1 + ",\"err\":\""@.len();
            lemma_valid_at_unique(s, j3, e1, e2);
        },
        (
            WarningView::CouldNotFixProfile { path: p1, profile: r1, err: e1 },
            WarningView::CouldNotFixProfile { path: p2, profile: r2, err: e2 },
        ) => {
            lemma_decomp_fix(s, p1, r1, e1);
            lemma_decomp_fix(s, p2, r2, e2);
            let j1 = "{\"type\":\"CouldNotFixProfile\",\"path\":\""@.len() as int;
            lemma_valid_at_unique(s, j1, p1, p2);
            let j3 = j1 + esc(p1).len() + 1 + ",\"profile\":\""@.len();
            lemma_valid_at_unique(s, j3, r1, r2);
            let j5 = j3 + esc(r1).len() + 1 + ",\"err\":\""@.len();
            lemma_valid_at_unique(s, j5, e1, e2);
        },
        (
            WarningView::DeprecatedKey { old: o1, new: n1 },
            WarningView::DeprecatedKey { old: o2, new: n2 },
        ) => {
            lemma_decomp_deprecated(s, o1, n1);
            lemma_decomp_deprecated(s, o2, n2);
            let j1 = "{\"type\":\"DeprecatedKey\",\"old\":\""@.len() as int;
            lemma_valid_at_unique(s, j1, o1, o2);
            let j3 = j1 + esc(o1).len() + 1 + ",\"new\":\""@.len();
            lemma_valid_at_unique(s, j3, n1, n2);
        },
        _ => {},
    }
}

impl Warning {
    /// Encodes the warning as its tagged text form.
    pub fn encode(&self) -> (r: String)
        ensures
            r@ == spec_encode(self@),
    {
        let mut r = String::new();
        match self {
            Warning::UnknownSection { unknown_section, source } => {
                r.append("{\"type\":\"UnknownSection\",\"unknown_section\":\"");
                append_escaped(&mut r, unknown_section.as_str());
                r.append("\",\"source\":");
                match source {
                    Some(src) => {
                        r.append("\"");
                        append_escaped(&mut r, src.as_str());
                        r.append("\"}");
                    },
                    None => {
                        r.append("null}");
                    },
                }
            },
            Warning::NoLocalToml { path } => {
                r.append("{\"type\":\"NoLocalToml\",\"path\":\"");
                append_escaped(&mut r, path.as_str());
                r.append("\"}");
            },
            Warning::CouldNotReadToml { path, err } => {
                r.append("{\"type\":\"CouldNotReadToml\",\"path\":\"");
                append_escaped(&mut r, path.as_str());
                r.append("\",\"err\":\"");
                append_escaped(&mut r, err.as_str());
                r.append("\"}");
            },
            Warning::CouldNotWriteToml { path, err } => {
                r.append("{\"type\":\"CouldNotWriteToml\",\"path\":\"");
                append_escaped(&mut r, path.as_str());
                r.append("\",\"err\":\"");
                append_escaped(&mut r, err.as_str());
                r.append("\"}");
            },
            Warning::CouldNotFixProfile { path, profile, err } => {
                r.append("{\"type\":\"CouldNotFixProfile\",\"path\":\"");
                append_escaped(&mut r, path.as_str());
                r.append("\",\"profile\":\"");
                append_escaped(&mut r, profile.as_str());
                r.append("\",\"err\":\"");
                append_escaped(&mut r, err.as_str());
                r.append("\"}");
            },
            Warning::DeprecatedKey { old, new } => {
                r.append("{\"type\":\"DeprecatedKey\",\"old\":\"");
                append_escaped(&mut r, old.as_str());
                r.append("\",\"new\":\"");
                append_escaped(&mut r, new.as_str());
                r.append("\"}");
            },
        }
        proof {
            assert(r@ =~= spec_encode(self@));
        }
        r
    }

    /// Decodes the tagged text form back into a warning.
    ///
    /// Returns the warning whose encoding is exactly `s`, and `None` when `s`
    /// is not the encoding of any warning; together with [`Warning::encode`]
    /// this makes the encoding a lossless round trip.
    pub fn decode(s: &str) -> (r: Option<Warning>)
        ensures
            r matches Some(w) ==> s@ == spec_encode(w@),
            forall|v: WarningView|
                s@ == #[trigger] spec_encode(v) ==> (r matches Some(w) && w@ == v),
    {
        if let Some(j1) = eat_lit(s, 0, "{\"type\":\"UnknownSection\",\"unknown_section\":\"") {
            proof {
                reveal_strlit("{\"type\":\"UnknownSection\",\"unknown_section\":\"");
                assert forall|v: WarningView| s@ == spec_encode(v) implies v is UnknownSection by {
                    lemma_tag_chars(s@, v);
                    lemma_index_of_subrange(s@, 0, j1 as int, 9);
                    lemma_index_of_subrange(s@, 0, j1 as int, 17);
                }
            }
            decode_unknown(s, j1)
        } else if let Some(j1) = eat_lit(s, 0, "{\"type\":\"NoLocalToml\",\"path\":\"") {
            proof {
                reveal_strlit("{\"type\":\"NoLocalToml\",\"path\":\"");
                assert forall|v: WarningView| s@ == spec_encode(v) implies v is NoLocalToml by {
                    lemma_tag_chars(s@, v);
                    lemma_index_of_subrange(s@, 0, j1 as int, 9);
                    lemma_index_of_subrange(s@, 0, j1 as int, 17);
                }
            }
            decode_no_local(s, j1)
        } else if let Some(j1) = eat_lit(s, 0, "{\"type\":\"CouldNotReadToml\",\"path\":\"") {
            proof {
                reveal_strlit("{\"type\":\"CouldNotReadToml\",\"path\":\"");
                assert forall|v: WarningView|
                    s@ == spec_encode(v) implies v is CouldNotReadToml by {
                    lemma_tag_chars(s@, v);
                    lemma_index_of_subrange(s@, 0, j1 as int, 9);
                    lemma_index_of_subrange(s@, 0, j1 as int, 17);
                }
            }
            decode_read(s, j1)
        } else if let Some(j1) = eat_lit(s, 0, "{\"type\":\"CouldNotWriteToml\",\"path\":\"") {
            proof {
                reveal_strlit("{\"type\":\"CouldNotWriteToml\",\"path\":\"");
                assert forall|v: WarningView|
                    s@ == spec_encode(v) implies v is CouldNotWriteToml by {
                    lemma_tag_chars(s@, v);
                    lemma_index_of_subrange(s@, 0, j1 as int, 9);
                    lemma_index_of_subrange(s@, 0, j1 as int, 17);
                }
            }
            decode_write(s, j1)
        } else if let Some(j1) = eat_lit(s, 0, "{\"type\":\"CouldNotFixProfile\",\"path\":\"") {
            proof {
                reveal_strlit("{\"type\":\"CouldNotFixProfile\",\"path\":\"");
                assert forall|v: WarningView|
                    s@ == spec_encode(v) implies v is CouldNotFixProfile by {
                    lemma_tag_chars(s@, v);
                    lemma_index_of_subrange(s@, 0, j1 as int, 9);
                    lemma_index_of_subrange(s@, 0, j1 as int, 17);
                }
            }
            decode_fix(s, j1)
        } else if let Some(j1) = eat_lit(s, 0, "{\"type\":\"DeprecatedKey\",\"old\":\"") {
            proof {
                reveal_strlit("{\"type\":\"DeprecatedKey\",\"old\":\"");
                assert forall|v: WarningView| s@ == spec_encode(v) implies v is DeprecatedKey by {
                    lemma_tag_chars(s@, v);
                    lemma_index_of_subrange(s@, 0, j1 as int, 9);
                    lemma_index_of_subrange(s@, 0, j1 as int, 17);
                }
            }
            decode_deprecated(s, j1)
        } else {
            proof {
                assert forall|v: WarningView| s@ == spec_encode(v) implies false by {
                    match v {
                        WarningView::UnknownSection { unknown_section, source } => {
                            lemma_decomp_unknown(s@, unknown_section, source);
                        },
                        WarningView::NoLocalToml { path } => {
                            lemma_decomp_no_local(s@, path);
                        },
                        WarningView::CouldNotReadToml { path, err } => {
                            lemma_decomp_read(s@, path, err);
                        },
                        WarningView::CouldNotWriteToml { path, err } => {
                            lemma_decomp_write(s@, path, err);
                        },
                        WarningView::CouldNotFixProfile { path, profile, err } => {
                            lemma_decomp_fix(s@, path, profile, err);
                        },
                        WarningView::DeprecatedKey { old, new } => {
                            lemma_decomp_deprecated(s@, old, new);
                        },
                    }
                }
            }
            None
        }
    }
}

} // verus!
