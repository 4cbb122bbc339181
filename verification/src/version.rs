//! Pinning the module imports of a script to a released version.

use vstd::prelude::*;
use crate::text::concat3;

verus! {

/// A pattern that asks for one character at a time: a letter, a digit or `/` asks for itself,
/// and `.` for any character but a line feed.
pub open spec fn plain_pattern(pattern: Seq<char>) -> bool {
    &&& 0 < pattern.len() <= 64
    &&& forall|k: int| 0 <= k < pattern.len() ==> plain_char(#[trigger] pattern[k])
}

/// A character of a plain pattern.
pub open spec fn plain_char(c: char) -> bool {
    ||| 'a' <= c <= 'z'
    ||| 'A' <= c <= 'Z'
    ||| '0' <= c <= '9'
    ||| c == '/'
    ||| c == '.'
}

/// A plain pattern's character `want` is met by the character `c`.
pub open spec fn meets(want: char, c: char) -> bool {
    if want == '.' {
        c != '\n'
    } else {
        c == want
    }
}

/// A plain pattern is met in `text` from position `at` on.
pub open spec fn matches_at(pattern: Seq<char>, text: Seq<char>, at: int) -> bool {
    &&& 0 <= at
    &&& at + pattern.len() <= text.len()
    &&& forall|k: int| 0 <= k < pattern.len() ==> meets(#[trigger] pattern[k], text[at + k])
}

/// `text` with `rep` in the place of each match of a plain pattern, taken from left to right
/// and without overlaps.
pub open spec fn replaced(pattern: Seq<char>, text: Seq<char>, rep: Seq<char>) -> Seq<char>
    decreases text.len(),
{
    if text.len() == 0 || pattern.len() == 0 {
        text
    } else if matches_at(pattern, text, 0) {
        rep + replaced(pattern, text.skip(pattern.len() as int), rep)
    } else {
        seq![text[0]] + replaced(pattern, text.skip(1), rep)
    }
}

/// `Regex::new` and `Regex::replace_all` of regex, the latter with `NoExpand`: every match of the
/// pattern, found from left to right without overlaps, gives way to `rep` as it stands, and the
/// rest of the text is kept. The pattern is a plain one, which the crate always compiles.
#[verifier::external_body]
fn regex_replace_all(pattern: &str, text: &str, rep: &str) -> (out: String)
    requires
        plain_pattern(pattern@),
    ensures
        out@ == replaced(pattern@, text@, rep@),
{
    regex::Regex::new(pattern).unwrap().replace_all(text, regex::NoExpand(rep)).into_owned()
}

/// What an import of the module looks like while no version is given.
pub open spec fn import_pattern() -> Seq<char> {
    "deno.land/x/katoa/"@
}

/// An import of the module at a version.
pub open spec fn versioned_import(version: Seq<char>) -> Seq<char> {
    "deno.land/x/katoa@v"@ + version + "/"@
}

/// The characters of the import pattern, one by one.
proof fn lemma_import_pattern()
    ensures
        import_pattern() == seq![
            'd',
            'e',
            'n',
            'o',
            '.',
            'l',
            'a',
            'n',
            'd',
            '/',
            'x',
            '/',
            'k',
            'a',
            't',
            'o',
            'a',
            '/',
        ],
        plain_pattern(import_pattern()),
{
    reveal_strlit("deno.land/x/katoa/");
    assert(import_pattern() =~= seq![
        'd',
        'e',
        'n',
        'o',
        '.',
        'l',
        'a',
        'n',
        'd',
        '/',
        'x',
        '/',
        'k',
        'a',
        't',
        'o',
        'a',
        '/',
    ]);
}

/// The start of a versioned import, one character at a time.
proof fn lemma_versioned_import(version: Seq<char>)
    ensures
        versioned_import(version).len() == version.len() + 20,
        versioned_import(version).take(19) == seq![
            'd',
            'e',
            'n',
            'o',
            '.',
            'l',
            'a',
            'n',
            'd',
            '/',
            'x',
            '/',
            'k',
            'a',
            't',
            'o',
            'a',
            '@',
            'v',
        ],
        forall|i: int|
            19 <= i < version.len() + 19 ==> #[trigger] versioned_import(version)[i] == version[i
                - 19],
        versioned_import(version).last() == '/',
{
    reveal_strlit("deno.land/x/katoa@v");
    reveal_strlit("/");
    assert(versioned_import(version).take(19) =~= seq![
        'd',
        'e',
        'n',
        'o',
        '.',
        'l',
        'a',
        'n',
        'd',
        '/',
        'x',
        '/',
        'k',
        'a',
        't',
        'o',
        'a',
        '@',
        'v',
    ]);
}

/// Pins each import of the module in a script to `version`. A build for debugging, and a user who
/// asks for unversioned imports, get the script as it is.
pub fn replace_with_version(
    s: &str,
    unversioned_deno: bool,
    debug_build: bool,
    version: &str,
) -> (out: String)
    ensures
        unversioned_deno || debug_build ==> out@ == s@,
        !(unversioned_deno || debug_build) ==> out@ == replaced(
            import_pattern(),
            s@,
            versioned_import(version@),
        ),
{
    if unversioned_deno || debug_build {
        return s.to_owned();
    }
    proof {
        lemma_import_pattern();
    }
    regex_replace_all("deno.land/x/katoa/", s, concat3("deno.land/x/katoa@v", version, "/").as_str())
}

/// A script without an import of the module stays as it is.
pub proof fn law_nothing_to_pin(text: Seq<char>, version: Seq<char>)
    requires
        forall|at: int| !#[trigger] matches_at(import_pattern(), text, at),
    ensures
        replaced(import_pattern(), text, versioned_import(version)) == text,
    decreases text.len(),
{
    lemma_import_pattern();
    if text.len() > 0 {
        assert(!matches_at(import_pattern(), text, 0));
        let rest = text.skip(1);
        assert forall|at: int| !#[trigger] matches_at(import_pattern(), rest, at) by {
            if matches_at(import_pattern(), rest, at) {
                assert forall|k: int| 0 <= k < import_pattern().len() implies meets(
                    #[trigger] import_pattern()[k],
                    text[at + 1 + k],
                ) by {
                    assert(rest[at + k] == text[at + 1 + k]);
                }
                assert(matches_at(import_pattern(), text, at + 1));
            }
        }
        law_nothing_to_pin(rest, version);
        assert(seq![text[0]] + rest =~= text);
    }
}

/// The first `n` characters of a pinned text are those of the text, unless a versioned import
/// starts among them.
proof fn lemma_start_of_pinned(text: Seq<char>, rep: Seq<char>, n: nat)
    requires
        replaced(import_pattern(), text, rep).len() >= n,
    ensures
        ({
            let out = replaced(import_pattern(), text, rep);
            ||| text.len() >= n && out.take(n as int) == text.take(n as int)
            ||| exists|j: int|
                0 <= j < n && j + rep.len() <= out.len() && #[trigger] out.subrange(
                    j,
                    j + rep.len(),
                ) == rep
        }),
    decreases n,
{
    lemma_import_pattern();
    let out = replaced(import_pattern(), text, rep);
    if n == 0 {
        assert(out.take(0) =~= text.take(0));
    } else if text.len() > 0 {
        if matches_at(import_pattern(), text, 0) {
            assert(out.subrange(0int, 0int + rep.len()) =~= rep);
        } else {
            let rest = replaced(import_pattern(), text.skip(1), rep);
            lemma_start_of_pinned(text.skip(1), rep, (n - 1) as nat);
            if text.skip(1).len() >= n - 1 && rest.take(n - 1) == text.skip(1).take(n - 1) {
                assert forall|i: int| 0 <= i < n implies out[i] == text[i] by {
                    if i > 0 {
                        assert(rest.take(n - 1)[i - 1] == text.skip(1).take(n - 1)[i - 1]);
                    }
                }
                assert(out.take(n as int) =~= text.take(n as int));
            } else {
                let j = choose|j: int|
                    0 <= j < n - 1 && j + rep.len() <= rest.len() && #[trigger] rest.subrange(
                        j,
                        j + rep.len(),
                    ) == rep;
                assert(out.subrange(j + 1, j + 1 + rep.len()) =~= rest.subrange(j, j + rep.len()));
            }
        }
    }
}

/// The end of `version`, from position `from` on, and the `/` behind it could be the start of an
/// import without a version, as in `1.0.0-deno/`.
pub open spec fn begins_import(version: Seq<char>, from: int) -> bool {
    let tail = (version + "/"@).skip(from);
    forall|k: int|
        0 <= k < import_pattern().len() && k < tail.len() ==> meets(
            #[trigger] import_pattern()[k],
            tail[k],
        )
}

/// Once a script is pinned, it holds no import of the module without a version, unless the
/// version itself could begin one.
pub proof fn law_every_import_is_pinned(text: Seq<char>, version: Seq<char>, at: int)
    requires
        forall|from: int| 0 <= from < version.len() ==> !#[trigger] begins_import(version, from),
    ensures
        !matches_at(
            import_pattern(),
            replaced(import_pattern(), text, versioned_import(version)),
            at,
        ),
    decreases text.len(),
{
    lemma_import_pattern();
    lemma_versioned_import(version);
    let pattern = import_pattern();
    let rep = versioned_import(version);
    let out = replaced(pattern, text, rep);
    if matches_at(pattern, out, at) {
        assert(meets(pattern[0], out[at + 0]));
        assert(meets(pattern[1], out[at + 1]));
        assert(meets(pattern[17], out[at + 17]));
        if text.len() == 0 {
        } else if matches_at(pattern, text, 0) {
            let rest = replaced(pattern, text.skip(18), rep);
            if at >= rep.len() {
                law_every_import_is_pinned(text.skip(18), version, at - rep.len());
                assert forall|k: int| 0 <= k < pattern.len() implies meets(
                    #[trigger] pattern[k],
                    rest[at - rep.len() + k],
                ) by {
                    assert(rest[at - rep.len() + k] == out[at + k]);
                }
            } else {
                assert(out[at] == rep[at] == 'd');
                if at < 19 {
                    assert(rep[at] == rep.take(19)[at]);
                    assert(rep[9] == rep.take(19)[9]);
                    assert(rep[17] == rep.take(19)[17]);
                    assert(out[17] == rep[17]);
                    assert(out[9] == rep[9]);
                } else if at < version.len() + 19 {
                    let tail = (version + "/"@).skip(at - 19);
                    reveal_strlit("/");
                    assert forall|k: int|
                        0 <= k < import_pattern().len() && k < tail.len() implies meets(
                        #[trigger] import_pattern()[k],
                        tail[k],
                    ) by {
                        assert(meets(pattern[k], out[at + k]));
                        assert(rep =~= rep.take(19) + (version + "/"@)) by {
                            reveal_strlit("deno.land/x/katoa@v");
                        }
                        assert(out[at + k] == rep[at + k]);
                    }
                    assert(begins_import(version, at - 19));
                } else {
                    assert(rep[at] == rep.last());
                }
            }
        } else {
            let rest = replaced(pattern, text.skip(1), rep);
            if at > 0 {
                law_every_import_is_pinned(text.skip(1), version, at - 1);
                assert forall|k: int| 0 <= k < pattern.len() implies meets(
                    #[trigger] pattern[k],
                    rest[at - 1 + k],
                ) by {
                    assert(rest[at - 1 + k] == out[at + k]);
                }
            } else {
                lemma_start_of_pinned(text.skip(1), rep, 17);
                if text.skip(1).len() >= 17 && rest.take(17) == text.skip(1).take(17) {
                    assert forall|k: int| 0 <= k < pattern.len() implies meets(
                        #[trigger] pattern[k],
                        text[0 + k],
                    ) by {
                        assert(meets(pattern[k], out[at + k]));
                        if k > 0 {
                            assert(rest.take(17)[k - 1] == text.skip(1).take(17)[k - 1]);
                        }
                    }
                } else {
                    let j = choose|j: int|
                        0 <= j < 17 && j + rep.len() <= rest.len() && #[trigger] rest.subrange(
                            j,
                            j + rep.len(),
                        ) == rep;
                    assert(rest[j] == rest.subrange(j, j + rep.len())[0]);
                    assert(rest[j + 1] == rest.subrange(j, j + rep.len())[1]);
                    assert(rep[0] == rep.take(19)[0]);
                    assert(rep[1] == rep.take(19)[1]);
                    assert(meets(pattern[j + 1], out[at + (j + 1)]));
                    if j + 2 < 18 {
                        assert(meets(pattern[j + 2], out[at + (j + 2)]));
                    }
                }
            }
        }
    }
}

/// A script that is pinned already stays as it is when pinned again, unless the version itself could
/// begin an import.
pub proof fn law_pinning_twice(text: Seq<char>, version: Seq<char>)
    requires
        forall|from: int| 0 <= from < version.len() ==> !#[trigger] begins_import(version, from),
    ensures
        ({
            let once = replaced(import_pattern(), text, versioned_import(version));
            replaced(import_pattern(), once, versioned_import(version)) == once
        }),
{
    let once = replaced(import_pattern(), text, versioned_import(version));
    assert forall|at: int| !#[trigger] matches_at(import_pattern(), once, at) by {
        law_every_import_is_pinned(text, version, at);
    }
    law_nothing_to_pin(once, version);
}

/// The first import of a script is pinned where it stands: what comes before it is kept, the version
/// is put in, and what comes behind it is pinned in turn.
pub proof fn law_first_import_is_pinned(before: Seq<char>, behind: Seq<char>, version: Seq<char>)
    requires
        forall|at: int|
            0 <= at < before.len() ==> !#[trigger] matches_at(
                import_pattern(),
                before + "deno.land/x/katoa/"@ + behind,
                at,
            ),
    ensures
        replaced(
            import_pattern(),
            before + "deno.land/x/katoa/"@ + behind,
            versioned_import(version),
        ) == before + ("deno.land/x/katoa@v"@ + version + "/"@) + replaced(
            import_pattern(),
            behind,
            versioned_import(version),
        ),
    decreases before.len(),
{
    lemma_import_pattern();
    let import = "deno.land/x/katoa/"@;
    let text = before + import + behind;
    let rep = versioned_import(version);
    if before.len() == 0 {
        assert(text =~= import + behind);
        assert forall|k: int| 0 <= k < import_pattern().len() implies meets(
            #[trigger] import_pattern()[k],
            text[0 + k],
        ) by {
            assert(text[k] == import[k]);
        }
        assert(matches_at(import_pattern(), text, 0));
        assert(text.skip(import_pattern().len() as int) =~= behind);
        assert(before + rep + replaced(import_pattern(), behind, rep) =~= rep + replaced(
            import_pattern(),
            behind,
            rep,
        ));
    } else {
        let less = before.skip(1);
        let rest = less + import + behind;
        assert(text.skip(1) =~= rest);
        assert(!matches_at(import_pattern(), text, 0));
        assert forall|at: int| 0 <= at < less.len() implies !#[trigger] matches_at(
            import_pattern(),
            rest,
            at,
        ) by {
            if matches_at(import_pattern(), rest, at) {
                assert forall|k: int| 0 <= k < import_pattern().len() implies meets(
                    #[trigger] import_pattern()[k],
                    text[at + 1 + k],
                ) by {
                    assert(rest[at + k] == text[at + 1 + k]);
                }
                assert(matches_at(import_pattern(), text, at + 1));
            }
        }
        law_first_import_is_pinned(less, behind, version);
        assert(seq![text[0]] + (less + rep + replaced(import_pattern(), behind, rep)) =~= before
            + rep + replaced(import_pattern(), behind, rep));
    }
}

} // verus!
