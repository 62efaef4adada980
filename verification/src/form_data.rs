//! Form templates of search rules: `{key: value, key2: %s}`.

use vstd::prelude::*;

use crate::error::Error;
use crate::text::{
    cat, chars_of, contains, find, find_in, lemma_contains_find, occurs_at, push_all,
    replace_first, replace_first_chars, slice_of, starts_with, string_of, trim, trim_chars,
};

verus! {

/// How a character moves the bracket depth.
pub open spec fn depth_delta(c: char) -> int {
    if c == '{' || c == '[' || c == '(' {
        1
    } else if c == '}' || c == ']' || c == ')' {
        -1
    } else {
        0
    }
}

/// The first comma at or after `i` that sits at bracket depth zero, when the
/// depth just before `i` is `d`.
pub open spec fn top_comma_from(s: Seq<char>, i: int, d: int) -> Option<int>
    decreases s.len() - i,
{
    if i < 0 || i >= s.len() {
        None
    } else if s[i] == ',' && d == 0 {
        Some(i)
    } else {
        top_comma_from(s, i + 1, d + depth_delta(s[i]))
    }
}

pub proof fn lemma_top_comma_bound(s: Seq<char>, i: int, d: int)
    ensures
        top_comma_from(s, i, d) matches Some(j) ==> 0 <= i <= j < s.len() && s[j] == ',',
    decreases s.len() - i,
{
    if 0 <= i < s.len() && !(s[i] == ',' && d == 0) {
        lemma_top_comma_bound(s, i + 1, d + depth_delta(s[i]));
    }
}

/// `s` split at the commas that are not inside `{}`, `[]` or `()`.
pub open spec fn split_top(s: Seq<char>) -> Seq<Seq<char>>
    decreases s.len(),
{
    match top_comma_from(s, 0, 0) {
        Some(i) => {
            proof {
                lemma_top_comma_bound(s, 0, 0);
            }
            if 0 <= i < s.len() {
                seq![s.take(i)] + split_top(s.skip(i + 1))
            } else {
                seq![s]
            }
        },
        None => seq![s],
    }
}

/// The views of a list of character vectors.
pub open spec fn seqs_view(v: Seq<Vec<char>>) -> Seq<Seq<char>> {
    v.map_values(|x: Vec<char>| x@)
}

/// Splits `input` at top-level commas.
pub fn split_top_level_commas(input: &[char]) -> (parts: Vec<Vec<char>>)
    ensures
        seqs_view(parts@) == split_top(input@),
{
    let n = input.len();
    let mut parts: Vec<Vec<char>> = Vec::new();
    let mut start: usize = 0;
    let mut d: i128 = 0;
    let mut i: usize = 0;
    assert(input@.skip(0) =~= input@);
    while i < n
        invariant
            n == input@.len(),
            start <= i <= n,
            -(i as int) <= d <= i as int,
            split_top(input@) == seqs_view(parts@) + split_top(input@.skip(start as int)),
            top_comma_from(input@.skip(start as int), 0, 0) == top_comma_from(
                input@.skip(start as int),
                i - start,
                d as int,
            ),
        decreases n - i,
    {
        let c = input[i];
        let ghost rest = input@.skip(start as int);
        assert(rest[i - start] == c);
        if c == ',' && d == 0 {
            let piece = slice_of(input, start, i);
            proof {
                lemma_top_comma_bound(rest, 0, 0);
                assert(piece@ =~= rest.take(i - start));
                assert(rest.skip(i - start + 1) =~= input@.skip(i + 1));
                assert(split_top(rest) == seq![rest.take(i - start)] + split_top(
                    rest.skip(i - start + 1),
                ));
            }
            let ghost before = parts@;
            parts.push(piece);
            proof {
                assert(seqs_view(parts@) =~= seqs_view(before).push(piece@));
                assert(seqs_view(before) + split_top(rest) =~= seqs_view(parts@) + split_top(
                    input@.skip(i + 1),
                ));
                assert(input@.skip(i + 1).skip(0) =~= input@.skip(i + 1));
            }
            start = i + 1;
            d = 0;
        } else if c == '{' || c == '[' || c == '(' {
            d = d + 1;
        } else if c == '}' || c == ']' || c == ')' {
            d = d - 1;
        }
        i += 1;
    }
    let ghost rest = input@.skip(start as int);
    let piece = slice_of(input, start, n);
    proof {
        assert(piece@ =~= rest);
        assert(split_top(rest) == seq![rest]);
    }
    let ghost before = parts@;
    parts.push(piece);
    assert(seqs_view(parts@) =~= seqs_view(before).push(piece@));
    assert(seqs_view(before) + seq![rest] =~= seqs_view(parts@));
    parts
}

/// A quote character that `trim_matches(['\'', '"'])` removes.
pub open spec fn is_quote(c: char) -> bool {
    c == '\'' || c == '"'
}

pub open spec fn unquote_start(s: Seq<char>) -> Seq<char>
    decreases s.len(),
{
    if s.len() > 0 && is_quote(s[0]) {
        unquote_start(s.drop_first())
    } else {
        s
    }
}

pub open spec fn unquote_end(s: Seq<char>) -> Seq<char>
    decreases s.len(),
{
    if s.len() > 0 && is_quote(s.last()) {
        unquote_end(s.drop_last())
    } else {
        s
    }
}

/// `s` with quote characters removed from both ends.
pub open spec fn unquote(s: Seq<char>) -> Seq<char> {
    unquote_end(unquote_start(s))
}

/// What one comma-separated piece of a template contributes.
pub enum FieldOutcome {
    /// Blank piece, ignored.
    Skip,
    /// Piece without a `:`.
    Bad,
    /// Key, value, and whether the value was the `%s` placeholder.
    Field(Seq<char>, Seq<char>, bool),
}

/// The field that one template piece denotes.
pub open spec fn form_field(part: Seq<char>, keyword: Seq<char>) -> FieldOutcome {
    let p = trim(part);
    if p.len() == 0 {
        FieldOutcome::Skip
    } else {
        match find(p, ":"@) {
            None => FieldOutcome::Bad,
            Some(i) => {
                let k = unquote(trim(p.take(i)));
                let v = unquote(trim(p.skip(i + 1)));
                if v == "%s"@ {
                    FieldOutcome::Field(k, keyword, true)
                } else {
                    FieldOutcome::Field(k, v, false)
                }
            },
        }
    }
}

/// Fields decoded from a list of pieces, left to right.
pub enum FormFields {
    /// The fields, and whether any value was exactly the placeholder.
    Fields(Seq<(Seq<char>, Seq<char>)>, bool),
    /// The first piece (trimmed) that has no `:`.
    BadPart(Seq<char>),
}

pub open spec fn form_fields(parts: Seq<Seq<char>>, keyword: Seq<char>) -> FormFields
    decreases parts.len(),
{
    if parts.len() == 0 {
        FormFields::Fields(seq![], false)
    } else {
        match form_fields(parts.drop_last(), keyword) {
            FormFields::BadPart(p) => FormFields::BadPart(p),
            FormFields::Fields(fs, used) => match form_field(parts.last(), keyword) {
                FieldOutcome::Skip => FormFields::Fields(fs, used),
                FieldOutcome::Bad => FormFields::BadPart(trim(parts.last())),
                FieldOutcome::Field(k, v, u) => FormFields::Fields(fs.push((k, v)), used || u),
            },
        }
    }
}

/// The first field at or after `j` whose value contains `%s`.
pub open spec fn first_placeholder(fs: Seq<(Seq<char>, Seq<char>)>, j: int) -> Option<int>
    decreases fs.len() - j,
{
    if j < 0 || j >= fs.len() {
        None
    } else if contains(fs[j].1, "%s"@) {
        Some(j)
    } else {
        first_placeholder(fs, j + 1)
    }
}

/// The keyword written into the first value that embeds `%s`, once.
pub open spec fn embed_keyword(fs: Seq<(Seq<char>, Seq<char>)>, keyword: Seq<char>) -> Seq<
    (Seq<char>, Seq<char>),
> {
    match first_placeholder(fs, 0) {
        Some(j) => fs.update(j, (fs[j].0, replace_first(fs[j].1, "%s"@, keyword))),
        None => fs,
    }
}

/// Why a template cannot be decoded.
pub enum FormProblem {
    /// Not of the shape `{...}`.
    NotBraced,
    /// This piece (trimmed) has no `:`.
    BadField(Seq<char>),
}

/// The ordered form fields that `template` denotes for `keyword`.
pub open spec fn parse_form(template: Seq<char>, keyword: Seq<char>) -> Result<
    Seq<(Seq<char>, Seq<char>)>,
    FormProblem,
> {
    let t = trim(template);
    if t.len() == 0 {
        Ok(seq![])
    } else if !(t.len() >= 2 && t[0] == '{' && t.last() == '}') {
        Err(FormProblem::NotBraced)
    } else {
        let body = t.subrange(1, t.len() - 1);
        match form_fields(split_top(body), keyword) {
            FormFields::BadPart(p) => Err(FormProblem::BadField(p)),
            FormFields::Fields(fs, used) => Ok(
                if !used && contains(template, "%s"@) {
                    embed_keyword(fs, keyword)
                } else {
                    fs
                },
            ),
        }
    }
}

/// The message a template problem is reported with.
pub open spec fn form_problem_message(p: FormProblem, template: Seq<char>) -> Seq<char> {
    match p {
        FormProblem::NotBraced => "search data must look like {key: value}, got: "@ + template,
        FormProblem::BadField(part) => "invalid form field `"@ + part + "` in `"@ + template
            + "`"@,
    }
}

/// The views of form fields.
pub open spec fn fields_view(v: Seq<(String, String)>) -> Seq<(Seq<char>, Seq<char>)> {
    v.map_values(|p: (String, String)| (p.0@, p.1@))
}

pub open spec fn char_pairs_view(v: Seq<(Vec<char>, Vec<char>)>) -> Seq<(Seq<char>, Seq<char>)> {
    v.map_values(|p: (Vec<char>, Vec<char>)| (p.0@, p.1@))
}

fn unquote_chars(s: &[char]) -> (r: Vec<char>)
    ensures
        r@ == unquote(s@),
{
    let n = s.len();
    let mut i: usize = 0;
    assert(s@.skip(0) =~= s@);
    while i < n && (s[i] == '\'' || s[i] == '"')
        invariant
            n == s@.len(),
            i <= n,
            unquote_start(s@) == unquote_start(s@.skip(i as int)),
        decreases n - i,
    {
        assert(s@.skip(i as int).drop_first() =~= s@.skip(i + 1));
        i += 1;
    }
    let w = slice_of(s, i, n);
    assert(w@ =~= s@.skip(i as int));
    let m = w.len();
    let mut j: usize = m;
    assert(w@.take(j as int) =~= w@);
    while j > 0 && (w[j - 1] == '\'' || w[j - 1] == '"')
        invariant
            m == w@.len(),
            j <= m,
            unquote_end(w@) == unquote_end(w@.take(j as int)),
        decreases j,
    {
        assert(w@.take(j as int).drop_last() =~= w@.take(j - 1));
        j -= 1;
    }
    let r = slice_of(w.as_slice(), 0, j);
    assert(r@ =~= w@.take(j as int));
    r
}

fn same_chars(a: &[char], b: &[char]) -> (r: bool)
    ensures
        r == (a@ == b@),
{
    if a.len() != b.len() {
        return false;
    }
    let mut i: usize = 0;
    while i < a.len()
        invariant
            a@.len() == b@.len(),
            i <= a@.len(),
            forall|k: int| 0 <= k < i ==> a@[k] == b@[k],
        decreases a.len() - i,
    {
        if a[i] != b[i] {
            return false;
        }
        i += 1;
    }
    assert(a@ =~= b@);
    true
}

/// The exec counterpart of [`FieldOutcome`].
enum FieldParsed {
    Skip,
    Bad(Vec<char>),
    Field(Vec<char>, Vec<char>, bool),
}

fn parse_field(part: &[char], keyword: &[char]) -> (r: FieldParsed)
    ensures
        match form_field(part@, keyword@) {
            FieldOutcome::Skip => r is Skip,
            FieldOutcome::Bad => r matches FieldParsed::Bad(p) && p@ == trim(part@),
            FieldOutcome::Field(k, v, u) => r matches FieldParsed::Field(k2, v2, u2) && k2@ == k
                && v2@ == v && u2 == u,
        },
{
    let p = trim_chars(part);
    if p.len() == 0 {
        return FieldParsed::Skip;
    }
    let colon = chars_of(":");
    match find_in(p.as_slice(), colon.as_slice()) {
        None => FieldParsed::Bad(p),
        Some(i) => {
            proof {
                reveal_strlit(":");
            }
            let n = p.len();
            let head = slice_of(p.as_slice(), 0, i);
            let tail = slice_of(p.as_slice(), i + 1, n);
            assert(head@ =~= p@.take(i as int));
            assert(tail@ =~= p@.skip(i + 1));
            let k = unquote_chars(trim_chars(head.as_slice()).as_slice());
            let v = unquote_chars(trim_chars(tail.as_slice()).as_slice());
            let pct = chars_of("%s");
            if same_chars(v.as_slice(), pct.as_slice()) {
                FieldParsed::Field(k, slice_of(keyword, 0, keyword.len()), true)
            } else {
                FieldParsed::Field(k, v, false)
            }
        },
    }
}

fn embed_keyword_exec(fields: &mut Vec<(Vec<char>, Vec<char>)>, keyword: &[char])
    ensures
        char_pairs_view(final(fields)@) == embed_keyword(char_pairs_view(old(fields)@), keyword@),
{
    let ghost fs = char_pairs_view(fields@);
    let pct = chars_of("%s");
    let n = fields.len();
    let mut j: usize = 0;
    while j < n
        invariant
            n == fields@.len(),
            fs == char_pairs_view(fields@),
            fields@ == old(fields)@,
            pct@ == "%s"@,
            j <= n,
            first_placeholder(fs, 0) == first_placeholder(fs, j as int),
        decreases n - j,
    {
        assert(fs[j as int] == (fields@[j as int].0@, fields@[j as int].1@));
        if crate::text::contains_chars(fields[j].1.as_slice(), pct.as_slice()) {
            let key = slice_of(fields[j].0.as_slice(), 0, fields[j].0.len());
            let value = replace_first_chars(fields[j].1.as_slice(), pct.as_slice(), keyword);
            assert(pct@ == "%s"@);
            assert(value@ == replace_first(fields@[j as int].1@, pct@, keyword@));
            assert(key@ =~= fields@[j as int].0@);
            let ghost prev = fields@;
            fields.set(j, (key, value));
            proof {
                let target = fs.update(
                    j as int,
                    (fs[j as int].0, replace_first(fs[j as int].1, "%s"@, keyword@)),
                );
                assert(fields@ == prev.update(j as int, (key, value)));
                assert forall|k: int| 0 <= k < n implies #[trigger] char_pairs_view(fields@)[k]
                    == target[k] by {
                    assert(char_pairs_view(fields@)[k] == (fields@[k].0@, fields@[k].1@));
                    assert(fs[k] == (prev[k].0@, prev[k].1@));
                    if k != j {
                        assert(fields@[k] == prev[k]);
                    } else {
                        assert(fields@[k] == (key, value));
                        assert(target[k] == (fs[k].0, replace_first(fs[k].1, "%s"@, keyword@)));
                        assert(fs[k].0 == key@);
                        assert(fs[k].1 == prev[k].1@);
                        assert(value@ == replace_first(prev[k].1@, "%s"@, keyword@));
                    }
                }
                assert(char_pairs_view(fields@) =~= target);
            }
            return;
        }
        j += 1;
    }
    assert(first_placeholder(fs, n as int) is None);
}

fn to_string_pairs(v: &Vec<(Vec<char>, Vec<char>)>) -> (r: Vec<(String, String)>)
    ensures
        fields_view(r@) == char_pairs_view(v@),
{
    let mut r: Vec<(String, String)> = Vec::new();
    let mut i: usize = 0;
    while i < v.len()
        invariant
            i <= v@.len(),
            r@.len() == i,
            fields_view(r@) == char_pairs_view(v@).take(i as int),
        decreases v.len() - i,
    {
        let a = string_of(v[i].0.as_slice());
        let b = string_of(v[i].1.as_slice());
        let ghost prev = r@;
        r.push((a, b));
        proof {
            assert(r@ == prev.push((a, b)));
            assert forall|k: int| 0 <= k < i + 1 implies #[trigger] fields_view(r@)[k]
                == char_pairs_view(v@).take(i + 1)[k] by {
                assert(fields_view(r@)[k] == (r@[k].0@, r@[k].1@));
                assert(char_pairs_view(v@)[k] == (v@[k].0@, v@[k].1@));
                if k < i {
                    assert(r@[k] == prev[k]);
                    assert(fields_view(prev)[k] == char_pairs_view(v@).take(i as int)[k]);
                }
            }
            assert(fields_view(r@) =~= char_pairs_view(v@).take(i + 1));
        }
        i += 1;
    }
    assert(char_pairs_view(v@).take(v@.len() as int) =~= char_pairs_view(v@));
    r
}

/// Builds ordered form fields from a rule `data` template. A value that is
/// exactly `%s` becomes the keyword; if none is, the first value embedding
/// `%s` gets it substituted once.
pub fn parse_form_template(template: &str, keyword: &str) -> (res: Result<
    Vec<(String, String)>,
    Error,
>)
    ensures
        match parse_form(template@, keyword@) {
            Ok(fs) => res matches Ok(v) && fields_view(v@) == fs,
            Err(p) => res matches Err(Error::Message(m)) && m@ == form_problem_message(
                p,
                template@,
            ),
        },
{
    let tv = chars_of(template);
    let kw = chars_of(keyword);
    let t = trim_chars(tv.as_slice());
    if t.len() == 0 {
        let empty: Vec<(String, String)> = Vec::new();
        assert(fields_view(empty@) =~= Seq::<(Seq<char>, Seq<char>)>::empty());
        return Ok(empty);
    }
    if !(t.len() >= 2 && t[0] == '{' && t[t.len() - 1] == '}') {
        return Err(
            Error::Message(cat("search data must look like {key: value}, got: ", template)),
        );
    }
    let body = slice_of(t.as_slice(), 1, t.len() - 1);
    let parts = split_top_level_commas(body.as_slice());
    let ghost pv = seqs_view(parts@);
    let mut fields: Vec<(Vec<char>, Vec<char>)> = Vec::new();
    let mut used = false;
    let mut j: usize = 0;
    assert(pv.take(0) =~= Seq::<Seq<char>>::empty());
    assert(char_pairs_view(fields@) =~= Seq::<(Seq<char>, Seq<char>)>::empty());
    while j < parts.len()
        invariant
            pv == seqs_view(parts@),
            pv == split_top(body@),
            kw@ == keyword@,
            tv@ == template@,
            t@ == trim(template@),
            t@.len() >= 2 && t@[0] == '{' && t@.last() == '}',
            body@ == t@.subrange(1, t@.len() - 1),
            pv.len() == parts@.len(),
            j <= parts@.len(),
            form_fields(pv.take(j as int), kw@) == FormFields::Fields(
                char_pairs_view(fields@),
                used,
            ),
        decreases parts.len() - j,
    {
        assert(pv.take(j + 1).drop_last() =~= pv.take(j as int));
        assert(pv.take(j + 1).last() == parts@[j as int]@);
        match parse_field(parts[j].as_slice(), kw.as_slice()) {
            FieldParsed::Skip => {},
            FieldParsed::Bad(p) => {
                let ps = string_of(p.as_slice());
                let m = cat(&cat(&cat(&cat("invalid form field `", &ps), "` in `"), template), "`");
                proof {
                    assert(form_fields(pv.take(j + 1), kw@) == FormFields::BadPart(p@));
                    lemma_form_fields_bad_prefix(pv, kw@, j as int + 1);
                    assert(m@ =~= "invalid form field `"@ + p@ + "` in `"@ + template@ + "`"@);
                    assert(form_fields(split_top(body@), keyword@) == FormFields::BadPart(p@));
                    assert(parse_form(template@, keyword@) == Err::<
                        Seq<(Seq<char>, Seq<char>)>,
                        FormProblem,
                    >(FormProblem::BadField(p@)));
                }
                return Err(Error::Message(m));
            },
            FieldParsed::Field(k, v, u) => {
                let ghost before = fields@;
                fields.push((k, v));
                assert(char_pairs_view(fields@) =~= char_pairs_view(before).push((k@, v@)));
                used = used || u;
            },
        }
        j += 1;
    }
    assert(pv.take(parts@.len() as int) =~= pv);
    if !used && crate::text::str_contains(template, "%s") {
        embed_keyword_exec(&mut fields, kw.as_slice());
    }
    Ok(to_string_pairs(&fields))
}

/// Once a prefix of the pieces holds a bad piece, so does every longer prefix.
proof fn lemma_form_fields_bad_prefix(parts: Seq<Seq<char>>, keyword: Seq<char>, j: int)
    requires
        0 < j <= parts.len(),
        form_fields(parts.take(j), keyword) is BadPart,
    ensures
        form_fields(parts, keyword) == form_fields(parts.take(j), keyword),
    decreases parts.len() - j,
{
    if j < parts.len() {
        assert(parts.take(j + 1).drop_last() =~= parts.take(j));
        lemma_form_fields_bad_prefix(parts, keyword, j + 1);
    } else {
        assert(parts.take(j) =~= parts);
    }
}

/// Splitting at top-level commas loses nothing: joining the parts with
/// commas gives the input back, and there is always at least one part.
pub proof fn lemma_split_top_rejoins(s: Seq<char>)
    ensures
        split_top(s).len() >= 1,
        crate::text::join(split_top(s), ","@) == s,
    decreases s.len(),
{
    lemma_top_comma_bound(s, 0, 0);
    match top_comma_from(s, 0, 0) {
        Some(i) => {
            let rest = s.skip(i + 1);
            lemma_split_top_rejoins(rest);
            crate::text::lemma_join_prepend(s.take(i), split_top(rest), ","@);
            reveal_strlit(",");
            assert(s[i] == ',');
            assert(s.take(i) + ","@ + rest =~= s);
        },
        None => {
            assert(crate::text::join(seq![s], ","@) == s);
        },
    }
}

} // verus!
