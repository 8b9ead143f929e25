use vstd::prelude::*;

verus! {

/// Position of the last `.` in `s`, if there is one.
pub open spec fn last_dot(s: Seq<char>) -> Option<int>
    decreases s.len(),
{
    if s.len() == 0 {
        None
    } else if s.last() == '.' {
        Some(s.len() - 1)
    } else {
        last_dot(s.drop_last())
    }
}

/// The name with its extension removed: the text before the last `.`, or the
/// whole name when it holds no `.`.
pub open spec fn stem(s: Seq<char>) -> Seq<char> {
    match last_dot(s) {
        Some(i) => s.subrange(0, i),
        None => s,
    }
}

/// Removes the extension of a file name.
pub fn strip_extension(name: &str) -> (r: String)
    ensures
        r@ == stem(name@),
{
    let n = name.unicode_len();
    let mut i: usize = n;
    assert(name@.subrange(0, n as int) =~= name@);
    while i > 0
        invariant
            i <= n,
            n == name@.len(),
            last_dot(name@) == last_dot(name@.subrange(0, i as int)),
        decreases i,
    {
        if name.get_char(i - 1) == '.' {
            assert(last_dot(name@.subrange(0, i as int)) == Some((i - 1) as int));
            return String::from_str(name.substring_char(0, i - 1));
        }
        assert(name@.subrange(0, i as int).drop_last() =~= name@.subrange(0, i - 1));
        i = i - 1;
    }
    assert(name@.subrange(0, 0) =~= Seq::<char>::empty());
    String::from_str(name)
}


/// Every non-overlapping occurrence of `pat` in `s`, taken from left to right,
/// replaced by `rep`.
pub open spec fn replace_all(s: Seq<char>, pat: Seq<char>, rep: Seq<char>) -> Seq<char>
    decreases s.len(),
{
    if s.len() == 0 || pat.len() == 0 {
        s
    } else if pat.len() <= s.len() && s.subrange(0, pat.len() as int) == pat {
        rep + replace_all(s.subrange(pat.len() as int, s.len() as int), pat, rep)
    } else {
        seq![s[0]] + replace_all(s.drop_first(), pat, rep)
    }
}

/// Whether `pat` occurs in `s` starting at position `i`.
fn occurs_at(s: &str, n: usize, i: usize, pat: &str, m: usize) -> (r: bool)
    requires
        n == s@.len(),
        m == pat@.len(),
        i <= n,
    ensures
        r == (m <= n - i && s@.subrange(i as int, i + m) == pat@),
{
    if m > n - i {
        return false;
    }
    let mut j: usize = 0;
    while j < m
        invariant
            j <= m,
            m <= n - i,
            n == s@.len(),
            m == pat@.len(),
            forall|k: int| 0 <= k < j ==> s@[i + k] == pat@[k],
        decreases m - j,
    {
        if s.get_char(i + j) != pat.get_char(j) {
            assert(s@.subrange(i as int, i + m)[j as int] != pat@[j as int]);
            return false;
        }
        j = j + 1;
    }
    assert(s@.subrange(i as int, i + m) =~= pat@);
    true
}

/// Replaces every non-overlapping occurrence of `pat` in `s`, from left to
/// right, by `rep`.
pub fn replace_text(s: &str, pat: &str, rep: &str) -> (r: String)
    requires
        pat@.len() > 0,
    ensures
        r@ == replace_all(s@, pat@, rep@),
{
    let n = s.unicode_len();
    let m = pat.unicode_len();
    let mut out = String::new();
    let mut i: usize = 0;
    assert(s@.subrange(0, n as int) =~= s@);
    while i < n
        invariant
            i <= n,
            n == s@.len(),
            m == pat@.len(),
            m > 0,
            out@ + replace_all(s@.subrange(i as int, n as int), pat@, rep@) == replace_all(
                s@,
                pat@,
                rep@,
            ),
        decreases n - i,
    {
        let ghost t = s@.subrange(i as int, n as int);
        if occurs_at(s, n, i, pat, m) {
            assert(t.subrange(0, m as int) =~= s@.subrange(i as int, i + m));
            assert(t.subrange(m as int, t.len() as int) =~= s@.subrange(i + m, n as int));
            assert(out@ + rep@ + replace_all(s@.subrange(i + m, n as int), pat@, rep@) =~= out@
                + replace_all(t, pat@, rep@));
            out.append(rep);
            i = i + m;
        } else {
            assert(!(m <= t.len() && t.subrange(0, m as int) == pat@)) by {
                if m <= t.len() {
                    assert(t.subrange(0, m as int) =~= s@.subrange(i as int, i + m));
                }
            }
            assert(t.drop_first() =~= s@.subrange(i + 1, n as int));
            let c = s.substring_char(i, i + 1);
            assert(c@ =~= seq![t[0]]);
            assert(out@ + c@ + replace_all(s@.subrange(i + 1, n as int), pat@, rep@) =~= out@
                + replace_all(t, pat@, rep@));
            out.append(c);
            i = i + 1;
        }
    }
    assert(s@.subrange(n as int, n as int) =~= Seq::<char>::empty());
    assert(out@ + Seq::<char>::empty() =~= out@);
    out
}


/// How an output file name is derived from the original one.
pub struct NamingOptions {
    /// `"keep-original"`, `"add-suffix"` or `"custom"`; any other text keeps
    /// the original name.
    pub scheme: String,
    /// Text put after the name under `"add-suffix"`.
    pub suffix: Option<String>,
    /// Pattern with `{name}`, `{index}` and `{date}` under `"custom"`.
    pub custom_pattern: Option<String>,
}

impl NamingOptions {
    pub fn new(scheme: String, suffix: Option<String>, custom_pattern: Option<String>) -> (r:
        NamingOptions)
        ensures
            r.scheme == scheme,
            r.suffix == suffix,
            r.custom_pattern == custom_pattern,
    {
        NamingOptions { scheme, suffix, custom_pattern }
    }
}

/// The suffix in force: the configured one, else `_compressed`.
pub open spec fn chosen_suffix(options: &NamingOptions) -> Seq<char> {
    match options.suffix {
        Some(s) => s@,
        None => "_compressed"@,
    }
}

/// The pattern in force: the configured one, else `{name}_{index}`.
pub open spec fn chosen_pattern(options: &NamingOptions) -> Seq<char> {
    match options.custom_pattern {
        Some(p) => p@,
        None => "{name}_{index}"@,
    }
}

/// A custom pattern with its placeholders filled in, in the order `{name}`,
/// `{index}` (always `001`), `{date}`.
pub open spec fn fill_pattern(pattern: Seq<char>, name: Seq<char>, date: Seq<char>) -> Seq<char> {
    replace_all(
        replace_all(replace_all(pattern, "{name}"@, name), "{index}"@, "001"@),
        "{date}"@,
        date,
    )
}

pub open spec fn is_custom(options: &NamingOptions) -> bool {
    options.scheme@ == "custom"@
}

/// The output name for `original` under `options`, where `date` is the text
/// that stands for `{date}`.
pub open spec fn output_name(original: Seq<char>, options: &NamingOptions, date: Seq<char>) -> Seq<
    char,
> {
    let base = stem(original);
    if options.scheme@ == "add-suffix"@ {
        base + chosen_suffix(options) + ".webp"@
    } else if is_custom(options) {
        fill_pattern(chosen_pattern(options), base, date) + ".webp"@
    } else {
        base + ".webp"@
    }
}

/// Derives the output name, with `date` standing for `{date}`.
pub fn generate_output_name_on(original_name: &str, options: &NamingOptions, date: &str) -> (r:
    String)
    ensures
        r@ == output_name(original_name@, options, date@),
{
    let base = strip_extension(original_name);
    if options.scheme == String::from_str("add-suffix") {
        let suffix = match &options.suffix {
            Some(s) => s.as_str(),
            None => "_compressed",
        };
        base.concat(suffix).concat(".webp")
    } else if options.scheme == String::from_str("custom") {
        let pattern = match &options.custom_pattern {
            Some(p) => p.as_str(),
            None => "{name}_{index}",
        };
        proof {
            reveal_strlit("{name}");
            reveal_strlit("{index}");
            reveal_strlit("{date}");
        }
        let named = replace_text(pattern, "{name}", base.as_str());
        let indexed = replace_text(named.as_str(), "{index}", "001");
        let dated = replace_text(indexed.as_str(), "{date}", date);
        dated.concat(".webp")
    } else {
        base.concat(".webp")
    }
}

/// Relies on chrono's `Local::now` and its `%Y%m%d` formatting: today's local
/// date as text. It depends on the clock, so nothing is stated of it.
#[verifier::external_body]
fn local_date_stamp() -> (r: String) {
    chrono::Local::now().format("%Y%m%d").to_string()
}

/// Derives the output name; under the custom scheme `{date}` becomes today's
/// local date, which is read only there.
pub fn generate_output_name(original_name: &str, options: &NamingOptions) -> (r: String)
    ensures
        exists|date: Seq<char>| r@ == output_name(original_name@, options, date),
        !is_custom(options) ==> r@ == output_name(original_name@, options, Seq::empty()),
{
    if options.scheme == String::from_str("custom") {
        let date = local_date_stamp();
        generate_output_name_on(original_name, options, date.as_str())
    } else {
        let r = generate_output_name_on(original_name, options, "");
        proof {
            reveal_strlit("");
        }
        r
    }
}


/// `last_dot` finds the last `.`: none follows it, and without it there is
/// no `.` at all.
pub proof fn lemma_last_dot(s: Seq<char>)
    ensures
        last_dot(s) matches Some(i) ==> {
            &&& 0 <= i < s.len()
            &&& s[i] == '.'
            &&& forall|k: int| i < k < s.len() ==> s[k] != '.'
        },
        last_dot(s) is None ==> forall|k: int| 0 <= k < s.len() ==> s[k] != '.',
    decreases s.len(),
{
    if s.len() > 0 && s.last() != '.' {
        lemma_last_dot(s.drop_last());
        assert forall|k: int| 0 <= k < s.len() - 1 implies s[k] == s.drop_last()[k] by {}
    }
}

/// Text that cannot start an occurrence of `pat` passes through unchanged.
pub proof fn lemma_replace_free(a: Seq<char>, b: Seq<char>, pat: Seq<char>, rep: Seq<char>)
    requires
        pat.len() > 0,
        forall|k: int| 0 <= k < a.len() ==> a[k] != pat[0],
    ensures
        replace_all(a + b, pat, rep) == a + replace_all(b, pat, rep),
    decreases a.len(),
{
    if a.len() > 0 {
        let s = a + b;
        assert(s[0] == a[0]);
        if pat.len() <= s.len() {
            assert(s.subrange(0, pat.len() as int)[0] != pat[0]);
        }
        assert(s.drop_first() =~= a.drop_first() + b);
        lemma_replace_free(a.drop_first(), b, pat, rep);
        assert(a =~= seq![a[0]] + a.drop_first());
        assert(seq![a[0]] + (a.drop_first() + replace_all(b, pat, rep)) =~= a + replace_all(
            b,
            pat,
            rep,
        ));
    } else {
        assert(a + b =~= b);
        assert(a + replace_all(b, pat, rep) =~= replace_all(b, pat, rep));
    }
}

/// An occurrence of `pat` at the start is replaced.
pub proof fn lemma_replace_head(b: Seq<char>, pat: Seq<char>, rep: Seq<char>)
    requires
        pat.len() > 0,
    ensures
        replace_all(pat + b, pat, rep) == rep + replace_all(b, pat, rep),
{
    let s = pat + b;
    assert(s.subrange(0, pat.len() as int) =~= pat);
    assert(s.subrange(pat.len() as int, s.len() as int) =~= b);
}

/// Whatever the scheme, the derived name ends in `.webp`. The original
/// extension, the text from its last `.` on, is dropped: under
/// `keep-original` (and any unknown scheme) the result is the stem with
/// `.webp`, and under `add-suffix` the stem, the suffix and `.webp`.
pub proof fn lemma_output_name_is_webp(original: Seq<char>, options: &NamingOptions, date: Seq<char>)
    ensures
        ({
            let r = output_name(original, options, date);
            &&& r.len() >= 5
            &&& r.subrange(r.len() - 5, r.len() as int) == ".webp"@
        }),
        last_dot(original) matches Some(i) ==> {
            &&& stem(original) == original.subrange(0, i)
            &&& original[i] == '.'
            &&& forall|k: int| i < k < original.len() ==> original[k] != '.'
        },
        last_dot(original) is None ==> stem(original) == original,
        options.scheme@ == "add-suffix"@ ==> output_name(original, options, date) == stem(original)
            + chosen_suffix(options) + ".webp"@,
        options.scheme@ != "add-suffix"@ && !is_custom(options) ==> output_name(
            original,
            options,
            date,
        ) == stem(original) + ".webp"@,
{
    reveal_strlit(".webp");
    lemma_last_dot(original);
    let r = output_name(original, options, date);
    let w = ".webp"@;
    let front = r.subrange(0, r.len() - 5);
    assert(r == front + w);
    assert(r.subrange(r.len() - 5, r.len() as int) =~= w);
}

/// Under `add-suffix` with no suffix configured, `_compressed` is used.
pub proof fn lemma_add_suffix_default(original: Seq<char>, options: &NamingOptions, date: Seq<char>)
    requires
        options.scheme@ == "add-suffix"@,
        options.suffix is None,
    ensures
        output_name(original, options, date) == stem(original) + "_compressed"@ + ".webp"@,
{
}

/// Under `custom` with no pattern configured, `{name}_{index}` is used; for a
/// stem without `{`, that gives the stem, `_001` and `.webp`.
pub proof fn lemma_custom_default_pattern(
    original: Seq<char>,
    options: &NamingOptions,
    date: Seq<char>,
)
    requires
        is_custom(options),
        options.custom_pattern is None,
    ensures
        chosen_pattern(options) == "{name}_{index}"@,
        output_name(original, options, date) == fill_pattern("{name}_{index}"@, stem(original), date)
            + ".webp"@,
        (forall|k: int| 0 <= k < stem(original).len() ==> stem(original)[k] != '{')
            ==> output_name(original, options, date) == stem(original) + "_001"@ + ".webp"@,
{
    reveal_strlit("add-suffix");
    reveal_strlit("custom");
    assert(options.scheme@ != "add-suffix"@) by {
        assert(options.scheme@[0] != "add-suffix"@[0]);
    }
    let s = stem(original);
    if forall|k: int| 0 <= k < s.len() ==> s[k] != '{' {
        reveal_strlit("{name}_{index}");
        reveal_strlit("{name}");
        reveal_strlit("{index}");
        reveal_strlit("{date}");
        reveal_strlit("001");
        reveal_strlit("_001");
        let pn = "{name}"@;
        let pi = "{index}"@;
        let pd = "{date}"@;
        let e = Seq::<char>::empty();
        // {name} step
        assert("{name}_{index}"@ =~= pn + (seq!['_'] + pi));
        lemma_replace_head(seq!['_'] + pi, pn, s);
        lemma_replace_free(seq!['_'], pi, pn, s);
        let tail = seq!['i', 'n', 'd', 'e', 'x', '}'];
        assert(pi.subrange(0, 6)[1] != pn[1]);
        assert(pi.drop_first() =~= tail + e);
        lemma_replace_free(tail, e, pn, s);
        assert(tail + e =~= tail);
        assert(replace_all(pi, pn, s) =~= pi);
        let named = replace_all("{name}_{index}"@, pn, s);
        assert(named =~= s + (seq!['_'] + pi));
        // {index} step
        lemma_replace_free(s + seq!['_'], pi + e, pi, "001"@);
        lemma_replace_head(e, pi, "001"@);
        assert(s + (seq!['_'] + pi) =~= (s + seq!['_']) + (pi + e));
        assert(pi + e =~= pi);
        let indexed = replace_all(named, pi, "001"@);
        assert(indexed =~= s + "_001"@);
        // {date} step
        lemma_replace_free(s + "_001"@, e, pd, date);
        assert(s + "_001"@ + e =~= s + "_001"@);
        assert(fill_pattern("{name}_{index}"@, s, date) =~= s + "_001"@);
    }
}

} // verus!
