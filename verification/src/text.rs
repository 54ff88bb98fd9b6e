//! Path conventions: which imports name a stylesheet, and which file holds
//! the class-name table of a stylesheet.

use vstd::prelude::*;

verus! {

/// The suffix by which an import source is recognised as a CSS module.
pub open spec fn stylesheet_suffix() -> Seq<char> {
    ".module.css"@
}

/// The extension of a stylesheet.
pub open spec fn stylesheet_extension() -> Seq<char> {
    ".css"@
}

/// The extension of a file that holds a class-name table.
pub open spec fn table_extension() -> Seq<char> {
    ".json"@
}

/// The length of the mark of a relative path that `s` starts with, `./`
/// or `../`, or zero where it starts with neither.
pub open spec fn relative_mark(s: Seq<char>) -> nat {
    if s.len() >= 2 && s[0] == '.' && s[1] == '/' {
        2
    } else if s.len() >= 3 && s[0] == '.' && s[1] == '.' && s[2] == '/' {
        3
    } else {
        0
    }
}

/// `s` without the marks of a relative path that it starts with.
pub open spec fn strip_relative(s: Seq<char>) -> Seq<char>
    decreases s.len(),
{
    if relative_mark(s) > 0 {
        strip_relative(s.skip(relative_mark(s) as int))
    } else {
        s
    }
}

/// `s` with the stylesheet extension at its end replaced by the extension
/// of a table. A text that does not end in the stylesheet extension stays
/// as it is.
pub open spec fn with_table_extension(s: Seq<char>) -> Seq<char> {
    if stylesheet_extension().is_suffix_of(s) {
        s.take(s.len() - stylesheet_extension().len()) + table_extension()
    } else {
        s
    }
}

/// The name of the file that holds the class-name table of the stylesheet
/// imported as `specifier`: the marks of a relative path at the start of
/// the specifier are dropped, and the stylesheet extension at its end
/// becomes the extension of a table. Nothing in between is changed.
///
/// The directories that a specifier names stay in the name. Tables are
/// found by the name of their file alone, so for the import of a
/// stylesheet from another directory, as `./ui/button.module.css`, no
/// table is found.
pub open spec fn mapping_file_name_of(specifier: Seq<char>) -> Seq<char> {
    with_table_extension(strip_relative(specifier))
}

/// The characters of `s`, in order.
pub fn chars_of(s: &str) -> (v: Vec<char>)
    ensures
        v@ == s@,
{
    let mut v: Vec<char> = Vec::new();
    for c in it: s.chars()
        invariant
            v@ == it.seq().take(it.index()),
            it.seq() == s@,
    {
        v.push(c);
    }
    v
}

/// Whether `pat` stands in `s` at position `at`.
pub open spec fn occurs_at(s: Seq<char>, at: int, pat: Seq<char>) -> bool {
    0 <= at && at + pat.len() <= s.len() && s.subrange(at, at + pat.len()) == pat
}

fn matches_at(s: &Vec<char>, at: usize, pat: &Vec<char>) -> (b: bool)
    requires
        at <= s.len(),
    ensures
        b == occurs_at(s@, at as int, pat@),
{
    if pat.len() > s.len() - at {
        return false;
    }
    let mut k: usize = 0;
    while k < pat.len()
        invariant
            at + pat.len() <= s.len(),
            k <= pat.len(),
            forall|j: int| 0 <= j < k ==> s@[at + j] == pat@[j],
        decreases pat.len() - k,
    {
        if s[at + k] != pat[k] {
            proof {
                assert(s@.subrange(at as int, at + pat.len())[k as int] == s@[at + k]);
            }
            return false;
        }
        k += 1;
    }
    proof {
        assert(s@.subrange(at as int, at + pat.len()) =~= pat@);
    }
    true
}

/// Whether `a` and `b` are the same text.
pub fn same_text(a: &str, b: &str) -> (same: bool)
    ensures
        same == (a@ == b@),
{
    let x = chars_of(a);
    let y = chars_of(b);
    if x.len() != y.len() {
        return false;
    }
    let same = matches_at(&x, 0, &y);
    proof {
        assert(x@.subrange(0, y@.len() as int) =~= x@);
    }
    same
}

/// Whether `path` names a CSS module, that is, ends in the stylesheet
/// suffix.
pub fn is_stylesheet_path(path: &str) -> (b: bool)
    ensures
        b == stylesheet_suffix().is_suffix_of(path@),
{
    let s = chars_of(path);
    let suffix = chars_of(".module.css");
    if suffix.len() > s.len() {
        proof {
            if stylesheet_suffix().is_suffix_of(path@) {
                let n = path@.len() - stylesheet_suffix().len();
                assert(path@.skip(n).len() == stylesheet_suffix().len());
            }
        }
        return false;
    }
    let at = s.len() - suffix.len();
    let b = matches_at(&s, at, &suffix);
    proof {
        assert(s@.subrange(at as int, at + suffix@.len()) =~= s@.skip(at as int));
    }
    b
}

/// The length of the mark of a relative path that stands in `text` at
/// `at`.
fn relative_mark_at(text: &Vec<char>, at: usize) -> (mark: usize)
    requires
        at <= text.len(),
    ensures
        mark == relative_mark(text@.skip(at as int)),
        at + mark <= text.len(),
{
    let left = text.len() - at;
    if left >= 2 && text[at] == '.' && text[at + 1] == '/' {
        2
    } else if left >= 3 && text[at] == '.' && text[at + 1] == '.' && text[at + 2] == '/' {
        3
    } else {
        0
    }
}

/// The name of the file that holds the class-name table of the stylesheet
/// imported as `specifier`.
pub fn mapping_file_name(specifier: &str) -> (name: String)
    ensures
        name@ == mapping_file_name_of(specifier@),
{
    let text = chars_of(specifier);
    let mut start: usize = 0;
    proof {
        assert(specifier@.skip(0) =~= specifier@);
    }
    let mut mark = relative_mark_at(&text, start);
    while mark > 0
        invariant
            text@ == specifier@,
            start <= text.len(),
            start + mark <= text.len(),
            mark == relative_mark(specifier@.skip(start as int)),
            strip_relative(specifier@) == strip_relative(specifier@.skip(start as int)),
        decreases text.len() - start,
    {
        proof {
            assert(specifier@.skip(start as int).skip(mark as int) =~= specifier@.skip(
                start + mark,
            ));
        }
        start += mark;
        mark = relative_mark_at(&text, start);
    }
    let ghost rest = specifier@.skip(start as int);
    let extension = chars_of(".css");
    let mut name = String::new();
    if extension.len() <= text.len() - start && matches_at(
        &text,
        text.len() - extension.len(),
        &extension,
    ) {
        let end = text.len() - extension.len();
        proof {
            assert(rest.subrange(rest.len() - extension@.len(), rest.len() as int)
                =~= specifier@.subrange(end as int, end + extension@.len()));
            assert(rest.take(rest.len() - extension@.len()) =~= specifier@.subrange(
                start as int,
                end as int,
            ));
        }
        name.append(specifier.substring_char(start, end));
        name.append(".json");
    } else {
        proof {
            if extension@.len() <= rest.len() {
                assert(rest.subrange(rest.len() - extension@.len(), rest.len() as int)
                    =~= specifier@.subrange(
                    text@.len() - extension@.len(),
                    text@.len() as int,
                ));
            }
            assert(rest =~= specifier@.subrange(start as int, text@.len() as int));
        }
        name.append(specifier.substring_char(start, text.len()));
    }
    name
}

/// The class-name table of a stylesheet that is imported from the
/// directory of the module, as `./<stem>.css` with a stem that holds no
/// slash, lies in the file `<stem>.json`, whatever else the stem holds.
pub proof fn lemma_mapping_file_of_import_beside(stem: Seq<char>)
    requires
        forall|i: int| 0 <= i < stem.len() ==> stem[i] != '/',
    ensures
        mapping_file_name_of("./"@ + stem + stylesheet_extension()) == stem + table_extension(),
{
    reveal_strlit("./");
    reveal_strlit(".css");
    let s = "./"@ + stem + ".css"@;
    let rest = stem + ".css"@;
    assert(relative_mark(s) == 2);
    assert(s.skip(2) =~= rest);
    assert(relative_mark(rest) == 0) by {
        if rest.len() >= 2 && rest[1] == '/' {
            if 1 < stem.len() {
                assert(rest[1] == stem[1]);
            }
        }
        if rest.len() >= 3 && rest[2] == '/' {
            if 2 < stem.len() {
                assert(rest[2] == stem[2]);
            }
        }
    }
    assert(strip_relative(rest) == rest);
    assert(strip_relative(s) == rest);
    assert(rest.subrange(rest.len() - 4, rest.len() as int) =~= ".css"@);
    assert(rest.take(rest.len() - 4) =~= stem);
}

/// The class-name table of a stylesheet that is imported from the
/// directory of the module, as `./<stem>.module.css` with a stem that
/// holds neither a dot nor a slash, lies in the file `<stem>.module.json`.
pub proof fn lemma_mapping_file_of_plain_import(stem: Seq<char>)
    requires
        forall|i: int| 0 <= i < stem.len() ==> stem[i] != '.' && stem[i] != '/',
    ensures
        mapping_file_name_of("./"@ + stem + ".module.css"@) == stem + ".module.json"@,
{
    reveal_strlit(".css");
    reveal_strlit(".json");
    reveal_strlit(".module");
    reveal_strlit(".module.css");
    reveal_strlit(".module.json");
    let named = stem + ".module"@;
    assert forall|i: int| 0 <= i < named.len() implies named[i] != '/' by {
        if i < stem.len() {
            assert(named[i] == stem[i]);
        }
    }
    lemma_mapping_file_of_import_beside(named);
    assert("./"@ + named + ".css"@ =~= "./"@ + stem + ".module.css"@);
    assert(named + ".json"@ =~= stem + ".module.json"@);
}

} // verus!
