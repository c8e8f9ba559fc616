//! Package entry manifest evidence.

use vstd::prelude::*;

use crate::discovery::{extension, normalize_relative_path, path_extension, spec_normalize_relative_path};
use crate::hashing::{blake3_hex, blake3_hex_of};
use crate::json::{json_array, json_items, json_opt_string, json_string, push_json_opt_string, push_json_string};
use crate::model::flow::{EntryEvidence, EntryManifest, EntryRecord};
use crate::model::schemas::SourceFile;
use crate::model::ENTRY_EVIDENCE_SCHEMA;
use crate::order::{lemma_str_lt_asymmetric, lemma_str_lt_total, lemma_str_lt_transitive, str_less, str_lt};
use crate::text::{
    ascii_lower_seq, chars_of, contains_char, ends_with, push_char, seq_ends_with, seq_starts_with,
    split, split_seq, starts_with, str_eq, to_ascii_lowercase, views,
};

verus! {

broadcast use vstd::string::group_string_axioms;

/// The most bytes of `package.json` that are read for entries.
pub const MAX_MANIFEST_BYTES: usize = 1048576;

/// Whether a repository path names a test file: a `.test`/`.spec` TypeScript file, or a
/// file under a `test`, `tests` or `__tests__` directory, ignoring ASCII case.
pub open spec fn spec_is_test_path(path: Seq<char>) -> bool {
    let lower = ascii_lower_seq(path);
    let parts = split_seq(lower, '/');
    let file = parts.last();
    ||| seq_ends_with(file, ".test.ts"@)
    ||| seq_ends_with(file, ".test.tsx"@)
    ||| seq_ends_with(file, ".spec.ts"@)
    ||| seq_ends_with(file, ".spec.tsx"@)
    ||| exists|i: int| 0 <= i < parts.len() && (#[trigger] parts[i] == "test"@ || parts[i] == "tests"@ || parts[i] == "__tests__"@)
}

/// Whether a repository path names a test file.
#[verifier::loop_isolation(false)]
pub fn is_test_path(path: &str) -> (r: bool)
    ensures
        r == spec_is_test_path(path@),
{
    let lower = to_ascii_lowercase(path);
    let parts = split(lower.as_str(), '/');
    proof {
        crate::text::lemma_split_nonempty(lower@, '/');
    }
    let file = parts[parts.len() - 1].as_str();
    if ends_with(file, ".test.ts") || ends_with(file, ".test.tsx") || ends_with(file, ".spec.ts") || ends_with(
        file,
        ".spec.tsx",
    ) {
        return true;
    }
    let mut i: usize = 0;
    while i < parts.len()
        invariant
            i <= parts@.len(),
            views(parts@) == split_seq(lower@, '/'),
            forall|k: int| 0 <= k < i ==> !(parts@[k]@ == "test"@ || parts@[k]@ == "tests"@ || parts@[k]@ == "__tests__"@),
        decreases parts@.len() - i,
    {
        let p = parts[i].as_str();
        if str_eq(p, "test") || str_eq(p, "tests") || str_eq(p, "__tests__") {
            assert(views(parts@)[i as int] == p@);
            return true;
        }
        i = i + 1;
    }
    proof {
        let ps = split_seq(lower@, '/');
        assert forall|k: int| 0 <= k < ps.len() implies !(#[trigger] ps[k] == "test"@ || ps[k] == "tests"@ || ps[k] == "__tests__"@) by {
            assert(ps[k] == parts@[k]@);
        }
    }
    false
}

/// The last piece of `s` split at `sep` ends with the last `n` characters of `s`, when
/// none of them is `sep`.
proof fn lemma_split_last_suffix(s: Seq<char>, sep: char, n: int)
    requires
        0 <= n <= s.len(),
        forall|k: int| s.len() - n <= k < s.len() ==> s[k] != sep,
    ensures
        seq_ends_with(split_seq(s, sep).last(), s.skip(s.len() - n)),
    decreases n,
{
    crate::text::lemma_split_nonempty(s, sep);
    if n == 0 {
        assert(s.skip(s.len() - n) =~= Seq::<char>::empty());
        let l = split_seq(s, sep).last();
        assert(l.skip(l.len() - 0) =~= Seq::<char>::empty());
    } else {
        let d = s.drop_last();
        assert forall|k: int| d.len() - (n - 1) <= k < d.len() implies d[k] != sep by {
            assert(d[k] == s[k]);
        }
        lemma_split_last_suffix(d, sep, n - 1);
        crate::text::lemma_split_nonempty(d, sep);
        let init = split_seq(d, sep);
        assert(s[s.len() - 1] != sep);
        let l = init.last().push(s.last());
        assert(split_seq(s, sep).last() == l);
        let suf = d.skip(d.len() - (n - 1));
        assert(s.skip(s.len() - n) =~= suf.push(s.last()));
        assert(l.skip(l.len() - n) =~= init.last().skip(init.last().len() - (n - 1)).push(s.last()));
    }
}

/// A path whose name ends, in any ASCII case, with `.test.ts`, `.test.tsx`, `.spec.ts` or
/// `.spec.tsx` is a test path.
pub proof fn law_test_and_spec_files_are_tests(path: Seq<char>, r: bool)
    requires
        r == spec_is_test_path(path),
    ensures
        seq_ends_with(ascii_lower_seq(path), ".test.ts"@) ==> r,
        seq_ends_with(ascii_lower_seq(path), ".test.tsx"@) ==> r,
        seq_ends_with(ascii_lower_seq(path), ".spec.ts"@) ==> r,
        seq_ends_with(ascii_lower_seq(path), ".spec.tsx"@) ==> r,
{
    reveal_strlit(".test.ts");
    reveal_strlit(".test.tsx");
    reveal_strlit(".spec.ts");
    reveal_strlit(".spec.tsx");
    let lower = ascii_lower_seq(path);
    let suffixes = seq![".test.ts"@, ".test.tsx"@, ".spec.ts"@, ".spec.tsx"@];
    assert forall|j: int| 0 <= j < 4 && #[trigger] seq_ends_with(lower, suffixes[j]) implies r by {
        let w = suffixes[j];
        assert(forall|k: int| 0 <= k < w.len() ==> w[k] != '/');
        assert forall|k: int| lower.len() - w.len() <= k < lower.len() implies lower[k] != '/' by {
            assert(lower[k] == w[k - (lower.len() - w.len())]);
        }
        lemma_split_last_suffix(lower, '/', w.len() as int);
        let file = split_seq(lower, '/').last();
        assert(file.skip(file.len() - w.len()) =~= w);
    }
    assert(suffixes[0] == ".test.ts"@);
    assert(suffixes[1] == ".test.tsx"@);
    assert(suffixes[2] == ".spec.ts"@);
    assert(suffixes[3] == ".spec.tsx"@);
}

/// A path with a directory named `test`, `tests` or `__tests__` (in any ASCII case) is a
/// test path.
pub proof fn law_test_directories_hold_tests(path: Seq<char>, r: bool, a: Seq<char>, dir: Seq<char>, b: Seq<char>)
    requires
        r == spec_is_test_path(path),
        dir == "test"@ || dir == "tests"@ || dir == "__tests__"@,
    ensures
        ascii_lower_seq(path) == a + seq!['/'] + dir + seq!['/'] + b ==> r,
        ascii_lower_seq(path) == dir + seq!['/'] + b ==> r,
{
    reveal_strlit("test");
    reveal_strlit("tests");
    reveal_strlit("__tests__");
    assert(!dir.contains('/'));
    crate::text::lemma_split_without_sep(dir, '/');
    crate::text::lemma_split_join(dir, b, '/');
    let tail = dir + seq!['/'] + b;
    let parts_tail = split_seq(tail, '/');
    assert(parts_tail == seq![dir] + split_seq(b, '/'));
    assert(parts_tail[0] == dir);
    let lower = ascii_lower_seq(path);
    if lower == a + seq!['/'] + dir + seq!['/'] + b {
        assert(lower =~= a + seq!['/'] + tail);
        crate::text::lemma_split_join(a, tail, '/');
        let parts = split_seq(lower, '/');
        let k = split_seq(a, '/').len() as int;
        assert(parts[k] == dir);
    }
    if lower == dir + seq!['/'] + b {
        assert(split_seq(lower, '/')[0] == dir);
    }
}

/// Whether `c` composes or redirects shell commands.
pub open spec fn shell_char(c: char) -> bool {
    c == '&' || c == '|' || c == ';' || c == '>' || c == '<' || c == '`' || c == '$' || c == '\n' || c == '\r'
}

/// The white-space separated words of `s` read so far, and the word being read.
pub open spec fn words_acc(s: Seq<char>) -> (Seq<Seq<char>>, Seq<char>)
    decreases s.len(),
{
    if s.len() == 0 {
        (Seq::empty(), Seq::empty())
    } else {
        let (done, cur) = words_acc(s.drop_last());
        if crate::text::is_unicode_whitespace(s.last()) {
            if cur.len() > 0 {
                (done.push(cur), Seq::empty())
            } else {
                (done, Seq::empty())
            }
        } else {
            (done, cur.push(s.last()))
        }
    }
}

/// The white-space separated words of `s` (`str::split_whitespace`).
pub open spec fn words(s: Seq<char>) -> Seq<Seq<char>> {
    let (done, cur) = words_acc(s);
    if cur.len() > 0 {
        done.push(cur)
    } else {
        done
    }
}

/// The words of `s`.
pub fn split_words(s: &str) -> (r: Vec<String>)
    ensures
        views(r@) == words(s@),
{
    let chars = chars_of(s);
    let mut done: Vec<String> = Vec::new();
    let mut cur = String::new();
    let mut i: usize = 0;
    while i < chars.len()
        invariant
            chars@ == s@,
            i <= chars@.len(),
            (views(done@), cur@) == words_acc(s@.take(i as int)),
        decreases chars@.len() - i,
    {
        assert(s@.take(i as int + 1).drop_last() =~= s@.take(i as int));
        let c = chars[i];
        let ws = {
            let u = c as u32;
            (0x09 <= u && u <= 0x0D) || u == 0x20 || u == 0x85 || u == 0xA0 || u == 0x1680 || (0x2000 <= u
                && u <= 0x200A) || u == 0x2028 || u == 0x2029 || u == 0x202F || u == 0x205F || u == 0x3000
        };
        if ws {
            if !cur.as_str().is_empty() {
                let ghost before = views(done@);
                done.push(cur);
                assert(views(done@) =~= before.push(words_acc(s@.take(i as int)).1));
                cur = String::new();
            } else {
                cur = String::new();
            }
        } else {
            push_char(&mut cur, c);
        }
        i = i + 1;
    }
    assert(s@.take(s@.len() as int) =~= s@);
    if !cur.as_str().is_empty() {
        let ghost before = views(done@);
        done.push(cur);
        assert(views(done@) =~= before.push(words_acc(s@).1));
    }
    done
}

/// Reading on through characters that are not white space extends the word being read.
proof fn lemma_words_acc_word(a: Seq<char>, w: Seq<char>)
    requires
        forall|k: int| 0 <= k < w.len() ==> !crate::text::is_unicode_whitespace(#[trigger] w[k]),
    ensures
        words_acc(a + w) == (words_acc(a).0, words_acc(a).1 + w),
    decreases w.len(),
{
    if w.len() == 0 {
        assert(a + w =~= a);
        assert(words_acc(a).1 + w =~= words_acc(a).1);
    } else {
        let d = w.drop_last();
        lemma_words_acc_word(a, d);
        assert((a + w).drop_last() =~= a + d);
        assert((a + w).last() == w[w.len() - 1]);
        assert(words_acc(a).1 + d.push(w.last()) =~= words_acc(a).1 + w);
        assert(d.push(w.last()) =~= w);
    }
}

/// Whether `w` is a word a simple script command may hold: not empty, without white
/// space, shell characters or quotes, and not a flag.
pub open spec fn plain_word(w: Seq<char>) -> bool {
    &&& w.len() > 0
    &&& w[0] != '-'
    &&& forall|k: int| 0 <= k < w.len() ==> {
        &&& !crate::text::is_unicode_whitespace(#[trigger] w[k])
        &&& !shell_char(w[k])
        &&& w[k] != '"'
        &&& w[k] != '\''
    }
}

proof fn lemma_runners_are_plain()
    ensures
        plain_word("tsx"@),
        plain_word("ts-node"@),
        plain_word("ts-node-esm"@),
        plain_word("node"@),
        plain_word("bun"@),
{
    reveal_strlit("tsx");
    reveal_strlit("ts-node");
    reveal_strlit("ts-node-esm");
    reveal_strlit("node");
    reveal_strlit("bun");
}

/// A command of a supported runner (`tsx`, `ts-node`, `ts-node-esm`, `node` or `bun`), one
/// space and a plain target reads as that runner and that target, with no reason given.
pub proof fn law_runner_and_target_commands_parse(
    runner: Seq<char>,
    target: Seq<char>,
    r: (Option<Seq<char>>, Option<Seq<char>>, Seq<char>),
)
    requires
        runner == "tsx"@ || runner == "ts-node"@ || runner == "ts-node-esm"@ || runner == "node"@ || runner == "bun"@,
        plain_word(target),
        r == spec_parse_script(runner + " "@ + target),
    ensures
        r == (Some(runner), Some(target), Seq::<char>::empty()),
{
    lemma_runners_are_plain();
    reveal_strlit(" ");
    let space = " "@;
    assert(space.len() == 1 && space[0] == ' ');
    assert(crate::text::is_unicode_whitespace(' '));
    let command = runner + space + target;
    lemma_words_acc_word(Seq::empty(), runner);
    assert(Seq::<char>::empty() + runner =~= runner);
    assert(words_acc(Seq::<char>::empty()) == (Seq::<Seq<char>>::empty(), Seq::<char>::empty()));
    assert(Seq::<char>::empty() + runner =~= runner);
    assert(words_acc(runner) == (Seq::<Seq<char>>::empty(), runner));
    assert((runner + space).drop_last() =~= runner);
    assert(words_acc(runner + space) == (seq![runner], Seq::<char>::empty()));
    lemma_words_acc_word(runner + space, target);
    assert(Seq::<char>::empty() + target =~= target);
    let tokens = words(command);
    assert(tokens == seq![runner, target]);
    assert forall|i: int| 0 <= i < command.len() implies !shell_char(#[trigger] command[i]) by {
        if i < runner.len() {
            assert(command[i] == runner[i]);
        } else if i == runner.len() {
            assert(command[i] == ' ');
        } else {
            assert(command[i] == target[i - runner.len() - 1]);
        }
    }
    assert forall|i: int| 0 <= i < tokens.len() implies !(seq_starts_with(#[trigger] tokens[i], "-"@) || tokens[i].contains('"')
        || tokens[i].contains('\'')) by {
        reveal_strlit("-");
        let t = tokens[i];
        assert(plain_word(t));
        if t.contains('"') {
            let k = choose|k: int| 0 <= k < t.len() && t[k] == '"';
        }
        if t.contains('\'') {
            let k = choose|k: int| 0 <= k < t.len() && t[k] == '\'';
        }
        if seq_starts_with(t, "-"@) {
            assert(t[0] == "-"@[0]);
        }
    }
}

/// A `bun run` or `deno run` command with a plain target reads as that runner with `run`
/// and that target; a command holding a shell character reads as neither.
pub proof fn law_run_commands_parse_and_shell_commands_do_not(
    runner: Seq<char>,
    target: Seq<char>,
    r: (Option<Seq<char>>, Option<Seq<char>>, Seq<char>),
    command: Seq<char>,
    q: (Option<Seq<char>>, Option<Seq<char>>, Seq<char>),
)
    requires
        runner == "bun"@ || runner == "deno"@,
        plain_word(target),
        r == spec_parse_script(runner + " run "@ + target),
        q == spec_parse_script(command),
    ensures
        r == (Some(runner + " run"@), Some(target), Seq::<char>::empty()),
        (exists|i: int| 0 <= i < command.len() && shell_char(#[trigger] command[i])) ==> (q.0 is None && q.1 is None
            && q.2 == "script-command-complex-or-shell-composed"@),
{
    reveal_strlit("bun");
    reveal_strlit("deno");
    reveal_strlit("run");
    reveal_strlit(" run ");
    reveal_strlit(" run");
    reveal_strlit("-");
    let run = "run"@;
    assert(plain_word(runner));
    assert(plain_word(run));
    assert(crate::text::is_unicode_whitespace(' '));
    let space = seq![' '];
    assert(" run "@ =~= space + run + space);
    let command1 = runner + " run "@ + target;
    assert(command1 =~= runner + space + run + space + target);
    lemma_words_acc_word(Seq::empty(), runner);
    assert(Seq::<char>::empty() + runner =~= runner);
    assert(words_acc(runner) == (Seq::<Seq<char>>::empty(), runner));
    assert((runner + space).drop_last() =~= runner);
    assert(words_acc(runner + space) == (seq![runner], Seq::<char>::empty()));
    lemma_words_acc_word(runner + space, run);
    assert(Seq::<char>::empty() + run =~= run);
    assert((runner + space + run + space).drop_last() =~= runner + space + run);
    assert(words_acc(runner + space + run + space) == (seq![runner, run], Seq::<char>::empty()));
    lemma_words_acc_word(runner + space + run + space, target);
    assert(Seq::<char>::empty() + target =~= target);
    let tokens = words(command1);
    assert(tokens == seq![runner, run, target]);
    assert forall|i: int| 0 <= i < command1.len() implies !shell_char(#[trigger] command1[i]) by {
        let k = runner.len();
        if i < k {
            assert(command1[i] == runner[i]);
        } else if i == k || i == k + 4 {
            assert(command1[i] == ' ');
        } else if i < k + 4 {
            assert(command1[i] == run[i - k - 1]);
        } else {
            assert(command1[i] == target[i - k - 5]);
        }
    }
    assert forall|i: int| 0 <= i < tokens.len() implies !(seq_starts_with(#[trigger] tokens[i], "-"@) || tokens[i].contains('"')
        || tokens[i].contains('\'')) by {
        let t = tokens[i];
        assert(plain_word(t));
        if t.contains('"') {
            let k = choose|k: int| 0 <= k < t.len() && t[k] == '"';
        }
        if t.contains('\'') {
            let k = choose|k: int| 0 <= k < t.len() && t[k] == '\'';
        }
        if seq_starts_with(t, "-"@) {
            assert(t[0] == "-"@[0]);
        }
    }
    assert(runner != "tsx"@ && runner != "ts-node"@ && runner != "ts-node-esm"@ && runner != "node"@) by {
        reveal_strlit("tsx");
        reveal_strlit("ts-node");
        reveal_strlit("ts-node-esm");
        reveal_strlit("node");
    }
    assert(runner + " run"@ =~= runner + space + run);
}

/// A runner and a target that is a flag or holds a quote read as neither runner nor
/// target: flags and quoting are refused.
pub proof fn law_flag_or_quoted_targets_are_refused(
    runner: Seq<char>,
    target: Seq<char>,
    r: (Option<Seq<char>>, Option<Seq<char>>, Seq<char>),
)
    requires
        plain_word(runner),
        target.len() > 0,
        forall|k: int| 0 <= k < target.len() ==> !crate::text::is_unicode_whitespace(#[trigger] target[k]) && !shell_char(target[k]),
        target[0] == '-' || target.contains('"') || target.contains('\''),
        r == spec_parse_script(runner + " "@ + target),
    ensures
        r == (None::<Seq<char>>, None::<Seq<char>>, "script-command-flags-or-quoting-unsupported"@),
{
    reveal_strlit(" ");
    reveal_strlit("-");
    let space = " "@;
    assert(space.len() == 1 && space[0] == ' ');
    assert(crate::text::is_unicode_whitespace(' '));
    let command = runner + space + target;
    lemma_words_acc_word(Seq::empty(), runner);
    assert(Seq::<char>::empty() + runner =~= runner);
    assert(words_acc(runner) == (Seq::<Seq<char>>::empty(), runner));
    assert((runner + space).drop_last() =~= runner);
    assert(words_acc(runner + space) == (seq![runner], Seq::<char>::empty()));
    lemma_words_acc_word(runner + space, target);
    assert(Seq::<char>::empty() + target =~= target);
    let tokens = words(command);
    assert(tokens == seq![runner, target]);
    assert forall|i: int| 0 <= i < command.len() implies !shell_char(#[trigger] command[i]) by {
        if i < runner.len() {
            assert(command[i] == runner[i]);
        } else if i == runner.len() {
            assert(command[i] == ' ');
        } else {
            assert(command[i] == target[i - runner.len() - 1]);
        }
    }
    if target[0] == '-' {
        assert(target.take(1) =~= "-"@);
    }
    assert(seq_starts_with(tokens[1], "-"@) || tokens[1].contains('"') || tokens[1].contains('\''));
}

/// How a script command reads: its runner and target, or why neither can be read.
pub open spec fn spec_parse_script(command: Seq<char>) -> (Option<Seq<char>>, Option<Seq<char>>, Seq<char>) {
    let tokens = words(command);
    if command.len() == 0 || exists|i: int| 0 <= i < command.len() && shell_char(#[trigger] command[i]) {
        (None, None, "script-command-complex-or-shell-composed"@)
    } else if exists|i: int| 0 <= i < tokens.len() && (seq_starts_with(#[trigger] tokens[i], "-"@) || tokens[i].contains('"') || tokens[i].contains('\'')) {
        (None, None, "script-command-flags-or-quoting-unsupported"@)
    } else if tokens.len() == 2 && (tokens[0] == "tsx"@ || tokens[0] == "ts-node"@ || tokens[0] == "ts-node-esm"@
        || tokens[0] == "node"@ || tokens[0] == "bun"@) {
        (Some(tokens[0]), Some(tokens[1]), Seq::empty())
    } else if tokens.len() == 3 && (tokens[0] == "bun"@ || tokens[0] == "deno"@) && tokens[1] == "run"@ {
        (Some(tokens[0] + " run"@), Some(tokens[2]), Seq::empty())
    } else {
        (None, None, "unsupported-script-runner-or-arity"@)
    }
}

#[verifier::loop_isolation(false)]
/// The runner and target of a simple script command (`runner target`, or `bun run` /
/// `deno run` and a target), or the reason it is not one.
pub fn parse_script(command: &str) -> (r: (Option<String>, Option<String>, String))
    ensures
        (match r.0 {
            Some(x) => Some(x@),
            None => None,
        }, match r.1 {
            Some(x) => Some(x@),
            None => None,
        }, r.2@) == spec_parse_script(command@),
{
    let chars = chars_of(command);
    let mut shell = false;
    let mut i: usize = 0;
    while i < chars.len()
        invariant
            chars@ == command@,
            i <= chars@.len(),
            shell == exists|k: int| 0 <= k < i && shell_char(#[trigger] command@[k]),
        decreases chars@.len() - i,
    {
        let c = chars[i];
        if c == '&' || c == '|' || c == ';' || c == '>' || c == '<' || c == '`' || c == '$' || c == '\n' || c == '\r' {
            shell = true;
        }
        i = i + 1;
    }
    if chars.len() == 0 || shell {
        return (None, None, "script-command-complex-or-shell-composed".to_string());
    }
    let tokens = split_words(command);
    let mut k: usize = 0;
    while k < tokens.len()
        invariant
            k <= tokens@.len(),
            views(tokens@) == words(command@),
            forall|m: int| 0 <= m < k ==> !(seq_starts_with(#[trigger] tokens@[m]@, "-"@) || tokens@[m]@.contains('"') || tokens@[m]@.contains('\'')),
        decreases tokens@.len() - k,
    {
        let t = tokens[k].as_str();
        if starts_with(t, "-") || contains_char(t, '"') || contains_char(t, '\'') {
            assert(views(tokens@)[k as int] == t@);
            return (None, None, "script-command-flags-or-quoting-unsupported".to_string());
        }
        k = k + 1;
    }
    proof {
        let ts = words(command@);
        assert forall|m: int| 0 <= m < ts.len() implies !(seq_starts_with(#[trigger] ts[m], "-"@) || ts[m].contains('"') || ts[m].contains('\'')) by {
            assert(ts[m] == tokens@[m]@);
        }
    }
    if tokens.len() == 2 {
        let runner = tokens[0].as_str();
        if str_eq(runner, "tsx") || str_eq(runner, "ts-node") || str_eq(runner, "ts-node-esm") || str_eq(runner, "node")
            || str_eq(runner, "bun") {
            assert(views(tokens@)[0] == tokens@[0]@ && views(tokens@)[1] == tokens@[1]@);
            return (Some(tokens[0].clone()), Some(tokens[1].clone()), String::new());
        }
    }
    if tokens.len() == 3 {
        let runner = tokens[0].as_str();
        if (str_eq(runner, "bun") || str_eq(runner, "deno")) && str_eq(tokens[1].as_str(), "run") {
            assert(views(tokens@)[0] == tokens@[0]@ && views(tokens@)[2] == tokens@[2]@);
            let mut r = tokens[0].clone();
            r.append(" run");
            return (Some(r), Some(tokens[2].clone()), String::new());
        }
    }
    (None, None, "unsupported-script-runner-or-arity".to_string())
}

/// Whether `path` is the path of one of `files`.
pub open spec fn is_file(files: Seq<SourceFile>, path: Seq<char>) -> bool {
    exists|i: int| 0 <= i < files.len() && #[trigger] files[i].path@ == path
}

/// Whether `path` is the path of one of `files`.
pub fn has_file(files: &[SourceFile], path: &str) -> (r: bool)
    ensures
        r == is_file(files@, path@),
{
    let mut i: usize = 0;
    while i < files.len()
        invariant
            i <= files@.len(),
            forall|k: int| 0 <= k < i ==> files@[k].path@ != path@,
        decreases files@.len() - i,
    {
        if str_eq(files[i].path.as_str(), path) {
            return true;
        }
        i = i + 1;
    }
    false
}

/// The file an entry target names among `files`, or why it names none.
pub open spec fn spec_resolve_target(target: Seq<char>, files: Seq<SourceFile>) -> Result<Seq<char>, Seq<char>> {
    if target.len() == 0 || seq_starts_with(target, "/"@) || seq_starts_with(target, "\\"@) || target.contains(':') {
        Err("entry-target-absolute-or-invalid"@)
    } else {
        let slashed = crate::discovery::forward_slashes(target);
        match spec_normalize_relative_path(slashed) {
            Err(_) => Err("entry-target-escapes-repository"@),
            Ok(n) => {
                let ext = match extension(n) {
                    Some(e) => e,
                    None => Seq::empty(),
                };
                if ext == "js"@ || ext == "jsx"@ {
                    Err("entry-target-javascript-output-unsupported"@)
                } else if seq_ends_with(n, ".d.ts"@) {
                    Err("entry-target-declaration-file-unsupported"@)
                } else if is_file(files, n) {
                    Ok(n)
                } else if ext.len() == 0 && is_file(files, n + ".ts"@) {
                    Ok(n + ".ts"@)
                } else if ext.len() == 0 && is_file(files, n + ".tsx"@) {
                    Ok(n + ".tsx"@)
                } else if ext.len() == 0 && is_file(files, n + "/index.ts"@) {
                    Ok(n + "/index.ts"@)
                } else if ext.len() == 0 && is_file(files, n + "/index.tsx"@) {
                    Ok(n + "/index.tsx"@)
                } else if is_file(files, n + ".d.ts"@) || is_file(files, n + "/index.d.ts"@) {
                    Err("entry-target-declaration-file-unsupported"@)
                } else {
                    Err("entry-target-missing-or-not-typescript"@)
                }
            },
        }
    }
}

fn with_suffix(base: &String, suffix: &str) -> (r: String)
    ensures
        r@ == base@ + suffix@,
{
    let mut r = base.clone();
    r.append(suffix);
    r
}

fn slashed(s: &str) -> (r: String)
    ensures
        r@ == crate::discovery::forward_slashes(s@),
{
    let sc = chars_of(s);
    let mut r = String::new();
    let mut i: usize = 0;
    while i < sc.len()
        invariant
            sc@ == s@,
            i <= sc@.len(),
            r@ == crate::discovery::forward_slashes(s@.take(i as int)),
        decreases sc@.len() - i,
    {
        let c = sc[i];
        push_char(&mut r, if c == '\\' { '/' } else { c });
        assert(crate::discovery::forward_slashes(s@.take(i as int + 1)) =~= crate::discovery::forward_slashes(
            s@.take(i as int),
        ).push(if c == '\\' { '/' } else { c }));
        i = i + 1;
    }
    assert(s@.take(s@.len() as int) =~= s@);
    r
}

/// The known TypeScript file an entry target names, or why it names none.
pub fn resolve_target(target: &str, files: &[SourceFile]) -> (r: Result<String, String>)
    ensures
        match spec_resolve_target(target@, files@) {
            Ok(p) => (r matches Ok(x) && x@ == p),
            Err(e) => (r matches Err(x) && x@ == e),
        },
{
    if target.is_empty() || starts_with(target, "/") || starts_with(target, "\\") || contains_char(target, ':') {
        return Err("entry-target-absolute-or-invalid".to_string());
    }
    let target = slashed(target);
    let normalized = match normalize_relative_path(target.as_str()) {
        Ok(n) => n,
        Err(_) => return Err("entry-target-escapes-repository".to_string()),
    };
    let ext = match path_extension(normalized.as_str()) {
        Some(e) => e,
        None => String::new(),
    };
    if str_eq(ext.as_str(), "js") || str_eq(ext.as_str(), "jsx") {
        return Err("entry-target-javascript-output-unsupported".to_string());
    }
    if ends_with(normalized.as_str(), ".d.ts") {
        return Err("entry-target-declaration-file-unsupported".to_string());
    }
    if has_file(files, normalized.as_str()) {
        return Ok(normalized);
    }
    if ext.as_str().is_empty() {
        let a = with_suffix(&normalized, ".ts");
        if has_file(files, a.as_str()) {
            return Ok(a);
        }
        let b = with_suffix(&normalized, ".tsx");
        if has_file(files, b.as_str()) {
            return Ok(b);
        }
        let c = with_suffix(&normalized, "/index.ts");
        if has_file(files, c.as_str()) {
            return Ok(c);
        }
        let d = with_suffix(&normalized, "/index.tsx");
        if has_file(files, d.as_str()) {
            return Ok(d);
        }
    }
    let e = with_suffix(&normalized, ".d.ts");
    let f = with_suffix(&normalized, "/index.d.ts");
    if has_file(files, e.as_str()) || has_file(files, f.as_str()) {
        return Err("entry-target-declaration-file-unsupported".to_string());
    }
    Err("entry-target-missing-or-not-typescript".to_string())
}

/// The plain values of an optional string.
pub open spec fn opt_view(o: Option<String>) -> Option<Seq<char>> {
    match o {
        Some(s) => Some(s@),
        None => None,
    }
}

/// The plain values of an entry record: key, kind, runner, target path, target node,
/// status and reason.
pub open spec fn record_view(r: EntryRecord) -> (Seq<char>, Seq<char>, Option<Seq<char>>, Option<Seq<char>>, Option<Seq<char>>, Seq<char>, Seq<char>) {
    (r.key@, r.kind@, opt_view(r.runner), opt_view(r.target_path), opt_view(r.target_node_id), r.status@, r.reason@)
}

/// The record of one declared entry: resolved to a known TypeScript file when no reason
/// already rules it out.
pub open spec fn spec_entry_record(
    kind: Seq<char>,
    key: Seq<char>,
    runner: Option<Seq<char>>,
    target: Option<Seq<char>>,
    reason: Seq<char>,
    files: Seq<SourceFile>,
) -> (Seq<char>, Seq<char>, Option<Seq<char>>, Option<Seq<char>>, Option<Seq<char>>, Seq<char>, Seq<char>) {
    if reason.len() > 0 {
        (key, kind, runner, None, None, "unresolved"@, reason)
    } else {
        match target {
            None => (key, kind, runner, None, None, "unresolved"@, "entry-target-missing"@),
            Some(t) => match spec_resolve_target(t, files) {
                Ok(p) => (key, kind, runner, Some(p), None, "resolved"@, "known-typescript-target"@),
                Err(e) => (key, kind, runner, None, None, "unresolved"@, e),
            },
        }
    }
}

/// The record of one declared package entry.
pub fn entry_record(
    kind: &str,
    key: &str,
    runner: Option<String>,
    target: Option<String>,
    reason: String,
    files: &[SourceFile],
) -> (r: EntryRecord)
    ensures
        record_view(r) == spec_entry_record(kind@, key@, opt_view(runner), opt_view(target), reason@, files@),
{
    let mut record = EntryRecord {
        key: key.to_string(),
        kind: kind.to_string(),
        runner,
        target_path: None,
        target_node_id: None,
        status: "unresolved".to_string(),
        reason,
    };
    if record.reason.as_str().is_empty() {
        match target {
            None => {
                record.reason = "entry-target-missing".to_string();
            },
            Some(t) => match resolve_target(t.as_str(), files) {
                Ok(path) => {
                    record.target_path = Some(path);
                    record.status = "resolved".to_string();
                    record.reason = "known-typescript-target".to_string();
                },
                Err(reason) => {
                    record.reason = reason;
                },
            },
        }
    }
    record
}

/// A `bin` field of a package manifest.
#[derive(Debug)]
pub enum BinField {
    /// A single target.
    Text(String),
    /// Named targets, each with its value when that value is a string.
    Named(Vec<(String, Option<String>)>),
    /// Any other JSON value.
    Other,
}

/// The top-level fields of a package manifest that entries are read from, as its JSON
/// object gives them: `scripts` when it is an object (each command with its value when
/// that is a string), `bin`, and `main` and `module` (each with its value when that is a
/// string).
#[derive(Debug)]
pub struct PackageFields {
    pub scripts: Option<Vec<(String, Option<String>)>>,
    pub bin: Option<BinField>,
    pub main: Option<Option<String>>,
    pub module: Option<Option<String>>,
}

/// What reading a package manifest as JSON gave.
#[derive(Debug)]
pub enum ManifestJson {
    /// Not JSON.
    Invalid,
    /// JSON, but not an object.
    NotObject,
    /// A JSON object.
    Object(PackageFields),
}

/// The records of the `scripts` entries.
pub open spec fn script_records(scripts: Seq<(String, Option<String>)>, files: Seq<SourceFile>) -> Seq<(Seq<char>, Seq<char>, Option<Seq<char>>, Option<Seq<char>>, Option<Seq<char>>, Seq<char>, Seq<char>)>
    decreases scripts.len(),
{
    if scripts.len() == 0 {
        Seq::empty()
    } else {
        let (key, command) = scripts.last();
        let (runner, target, reason) = match command {
            Some(c) => spec_parse_script(c@),
            None => (None, None, "script-command-not-literal"@),
        };
        script_records(scripts.drop_last(), files).push(spec_entry_record("script"@, key@, runner, target, reason, files))
    }
}

/// The records of the named `bin` targets.
pub open spec fn bin_map_records(bins: Seq<(String, Option<String>)>, files: Seq<SourceFile>) -> Seq<(Seq<char>, Seq<char>, Option<Seq<char>>, Option<Seq<char>>, Option<Seq<char>>, Seq<char>, Seq<char>)>
    decreases bins.len(),
{
    if bins.len() == 0 {
        Seq::empty()
    } else {
        let (key, target) = bins.last();
        bin_map_records(bins.drop_last(), files).push(spec_entry_record(
            "bin"@,
            key@,
            None,
            opt_view(target),
            if target is Some {
                Seq::empty()
            } else {
                "bin-target-not-string"@
            },
            files,
        ))
    }
}

/// The record of a `main` or `module` field.
pub open spec fn field_record(field: Seq<char>, value: Option<String>, files: Seq<SourceFile>) -> (Seq<char>, Seq<char>, Option<Seq<char>>, Option<Seq<char>>, Option<Seq<char>>, Seq<char>, Seq<char>) {
    spec_entry_record(field, field, None, opt_view(value), if value is Some {
        Seq::empty()
    } else {
        "entry-target-not-string"@
    }, files)
}

/// The records of a package manifest, in the order its fields are read.
pub open spec fn manifest_records(fields: PackageFields, files: Seq<SourceFile>) -> Seq<(Seq<char>, Seq<char>, Option<Seq<char>>, Option<Seq<char>>, Option<Seq<char>>, Seq<char>, Seq<char>)> {
    let scripts = match fields.scripts {
        Some(s) => script_records(s@, files),
        None => Seq::empty(),
    };
    let bins = match fields.bin {
        None => Seq::empty(),
        Some(BinField::Text(t)) => seq![spec_entry_record("bin"@, "bin"@, None, Some(t@), Seq::empty(), files)],
        Some(BinField::Named(m)) => bin_map_records(m@, files),
        Some(BinField::Other) => seq![spec_entry_record("bin"@, "bin"@, None, None, "bin-not-string-or-object"@, files)],
    };
    let main = match fields.main {
        Some(v) => seq![field_record("main"@, v, files)],
        None => Seq::empty(),
    };
    let module = match fields.module {
        Some(v) => seq![field_record("module"@, v, files)],
        None => Seq::empty(),
    };
    scripts + bins + main + module
}

fn push_record(records: &mut Vec<EntryRecord>, record: EntryRecord)
    ensures
        final(records)@ == old(records)@.push(record),
{
    records.push(record);
}

/// The records of a package manifest, in the order its fields are read.
pub fn read_records(fields: &PackageFields, files: &[SourceFile]) -> (r: Vec<EntryRecord>)
    ensures
        r@.map_values(|x: EntryRecord| record_view(x)) == manifest_records(*fields, files@),
{
    let mut records: Vec<EntryRecord> = Vec::new();
    if let Some(scripts) = &fields.scripts {
        let mut i: usize = 0;
        while i < scripts.len()
            invariant
                i <= scripts@.len(),
                records@.map_values(|x: EntryRecord| record_view(x)) == script_records(scripts@.take(i as int), files@),
            decreases scripts@.len() - i,
        {
            let (key, command) = (&scripts[i].0, &scripts[i].1);
            let (runner, target, reason) = match command {
                Some(c) => parse_script(c.as_str()),
                None => (None, None, "script-command-not-literal".to_string()),
            };
            let record = entry_record("script", key.as_str(), runner, target, reason, files);
            let ghost before = records@;
            records.push(record);
            assert(scripts@.take(i as int + 1).drop_last() =~= scripts@.take(i as int));
            assert(records@.map_values(|x: EntryRecord| record_view(x)) =~= before.map_values(|x: EntryRecord| record_view(x)).push(record_view(record)));
            i = i + 1;
        }
        assert(scripts@.take(scripts@.len() as int) =~= scripts@);
    }
    let ghost after_scripts = records@.map_values(|x: EntryRecord| record_view(x));
    match &fields.bin {
        None => {},
        Some(BinField::Text(t)) => {
            let record = entry_record("bin", "bin", None, Some(t.clone()), String::new(), files);
            records.push(record);
        },
        Some(BinField::Named(m)) => {
            let mut i: usize = 0;
            while i < m.len()
                invariant
                    i <= m@.len(),
                    records@.map_values(|x: EntryRecord| record_view(x)) == after_scripts + bin_map_records(m@.take(i as int), files@),
                decreases m@.len() - i,
            {
                let target = m[i].1.clone();
                let reason = if m[i].1.is_some() {
                    String::new()
                } else {
                    "bin-target-not-string".to_string()
                };
                let record = entry_record("bin", m[i].0.as_str(), None, target, reason, files);
                let ghost before = records@;
                records.push(record);
                assert(m@.take(i as int + 1).drop_last() =~= m@.take(i as int));
                assert(records@.map_values(|x: EntryRecord| record_view(x)) =~= before.map_values(|x: EntryRecord| record_view(x)).push(record_view(record)));
                i = i + 1;
            }
            assert(m@.take(m@.len() as int) =~= m@);
        },
        Some(BinField::Other) => {
            let record = entry_record("bin", "bin", None, None, "bin-not-string-or-object".to_string(), files);
            records.push(record);
        },
    }
    let ghost after_bins = records@.map_values(|x: EntryRecord| record_view(x));
    if let Some(v) = &fields.main {
        let reason = if v.is_some() {
            String::new()
        } else {
            "entry-target-not-string".to_string()
        };
        let record = entry_record("main", "main", None, v.clone(), reason, files);
        records.push(record);
    }
    let ghost after_main = records@.map_values(|x: EntryRecord| record_view(x));
    if let Some(v) = &fields.module {
        let reason = if v.is_some() {
            String::new()
        } else {
            "entry-target-not-string".to_string()
        };
        let record = entry_record("module", "module", None, v.clone(), reason, files);
        records.push(record);
    }
    assert(records@.map_values(|x: EntryRecord| record_view(x)) =~= manifest_records(*fields, files@));
    records
}

/// Whether two records agree on kind and key (and, for the `full` order, on status and
/// reason).
pub open spec fn entry_same(a: EntryRecord, b: EntryRecord, full: bool) -> bool {
    a.kind@ == b.kind@ && a.key@ == b.key@ && (full ==> a.status@ == b.status@ && a.reason@ == b.reason@)
}

/// The order of entry records: by kind, then key (and, for the `full` order, status, then
/// reason).
pub open spec fn entry_lt(a: EntryRecord, b: EntryRecord, full: bool) -> bool {
    if a.kind@ != b.kind@ {
        str_lt(a.kind@, b.kind@)
    } else if a.key@ != b.key@ {
        str_lt(a.key@, b.key@)
    } else if !full {
        false
    } else if a.status@ != b.status@ {
        str_lt(a.status@, b.status@)
    } else {
        str_lt(a.reason@, b.reason@)
    }
}

/// Ordered by `entry_lt`.
pub open spec fn entries_sorted(s: Seq<EntryRecord>, full: bool) -> bool {
    forall|i: int, j: int| 0 <= i < j < s.len() ==> !entry_lt(#[trigger] s[j], #[trigger] s[i], full)
}

proof fn lemma_pair_order(a1: Seq<char>, b1: Seq<char>, c1: Seq<char>)
    ensures
        !(str_lt(a1, b1) && str_lt(b1, a1)),
        str_lt(a1, b1) && str_lt(b1, c1) ==> str_lt(a1, c1),
        a1 == b1 || str_lt(a1, b1) || str_lt(b1, a1),
        !str_lt(a1, a1),
{
    lemma_str_lt_asymmetric(a1, b1);
    lemma_str_lt_total(a1, b1);
    crate::order::lemma_str_lt_irreflexive(a1);
    if str_lt(a1, b1) && str_lt(b1, c1) {
        lemma_str_lt_transitive(a1, b1, c1);
    }
}

proof fn lemma_entry_order(a: EntryRecord, b: EntryRecord, c: EntryRecord, full: bool)
    ensures
        !entry_lt(a, a, full),
        !(entry_lt(a, b, full) && entry_lt(b, a, full)),
        entry_lt(a, b, full) && entry_lt(b, c, full) ==> entry_lt(a, c, full),
        entry_same(a, b, full) || entry_lt(a, b, full) || entry_lt(b, a, full),
        entry_same(a, b, full) ==> (entry_lt(a, c, full) == entry_lt(b, c, full) && entry_lt(c, a, full) == entry_lt(c, b, full)),
{
    lemma_pair_order(a.kind@, b.kind@, c.kind@);
    lemma_pair_order(a.key@, b.key@, c.key@);
    lemma_pair_order(a.status@, b.status@, c.status@);
    lemma_pair_order(a.reason@, b.reason@, c.reason@);
    lemma_pair_order(a.kind@, c.kind@, b.kind@);
    lemma_pair_order(a.key@, c.key@, b.key@);
    lemma_pair_order(a.status@, c.status@, b.status@);
    lemma_pair_order(a.reason@, c.reason@, b.reason@);
}

/// The order of entry records, over their plain values.
pub open spec fn view_lt(
    a: (Seq<char>, Seq<char>, Option<Seq<char>>, Option<Seq<char>>, Option<Seq<char>>, Seq<char>, Seq<char>),
    b: (Seq<char>, Seq<char>, Option<Seq<char>>, Option<Seq<char>>, Option<Seq<char>>, Seq<char>, Seq<char>),
    full: bool,
) -> bool {
    if a.1 != b.1 {
        str_lt(a.1, b.1)
    } else if a.0 != b.0 {
        str_lt(a.0, b.0)
    } else if !full {
        false
    } else if a.5 != b.5 {
        str_lt(a.5, b.5)
    } else {
        str_lt(a.6, b.6)
    }
}

/// Where `x` goes among the ordered `out`: before the first record it sorts before.
pub open spec fn view_pos(
    out: Seq<(Seq<char>, Seq<char>, Option<Seq<char>>, Option<Seq<char>>, Option<Seq<char>>, Seq<char>, Seq<char>)>,
    x: (Seq<char>, Seq<char>, Option<Seq<char>>, Option<Seq<char>>, Option<Seq<char>>, Seq<char>, Seq<char>),
    full: bool,
) -> nat
    decreases out.len(),
{
    if out.len() == 0 {
        0
    } else if view_lt(x, out[0], full) {
        0
    } else {
        1 + view_pos(out.drop_first(), x, full)
    }
}

/// Records ordered by `view_lt`, records that tie keeping their order.
pub open spec fn view_sort(
    s: Seq<(Seq<char>, Seq<char>, Option<Seq<char>>, Option<Seq<char>>, Option<Seq<char>>, Seq<char>, Seq<char>)>,
    full: bool,
) -> Seq<(Seq<char>, Seq<char>, Option<Seq<char>>, Option<Seq<char>>, Option<Seq<char>>, Seq<char>, Seq<char>)>
    decreases s.len(),
{
    if s.len() == 0 {
        s
    } else {
        let o = view_sort(s.drop_last(), full);
        o.insert(view_pos(o, s.last(), full) as int, s.last())
    }
}

fn entry_less(a: &EntryRecord, b: &EntryRecord, full: bool) -> (r: bool)
    ensures
        r == entry_lt(*a, *b, full),
        r == view_lt(record_view(*a), record_view(*b), full),
{
    if !str_eq(a.kind.as_str(), b.kind.as_str()) {
        return str_less(a.kind.as_str(), b.kind.as_str());
    }
    if !str_eq(a.key.as_str(), b.key.as_str()) {
        return str_less(a.key.as_str(), b.key.as_str());
    }
    if !full {
        return false;
    }
    if !str_eq(a.status.as_str(), b.status.as_str()) {
        return str_less(a.status.as_str(), b.status.as_str());
    }
    str_less(a.reason.as_str(), b.reason.as_str())
}

/// `records` ordered by kind and key (and, for the `full` order, status and reason);
/// records that tie keep their order.
pub fn sort_entries(records: Vec<EntryRecord>, full: bool) -> (r: Vec<EntryRecord>)
    ensures
        record_views(r@) == view_sort(record_views(records@), full),
{
    let mut out: Vec<EntryRecord> = Vec::new();
    let mut i: usize = 0;
    assert(record_views(records@).take(0) =~= record_views(out@));
    while i < records.len()
        invariant
            i <= records@.len(),
            record_views(out@) == view_sort(record_views(records@).take(i as int), full),
        decreases records@.len() - i,
    {
        let ghost t = record_views(records@).take(i as int + 1);
        assert(t.drop_last() =~= record_views(records@).take(i as int));
        assert(t.last() == record_view(records@[i as int]));
        let x = records[i].clone();
        let ghost ov = record_views(out@);
        let mut k: usize = 0;
        assert(ov.skip(0) =~= ov);
        while k < out.len() && !entry_less(&x, &out[k], full)
            invariant
                k <= out@.len(),
                ov == record_views(out@),
                view_pos(ov, record_view(x), full) == k + view_pos(ov.skip(k as int), record_view(x), full),
            decreases out@.len() - k,
        {
            assert(ov.skip(k as int)[0] == record_view(out@[k as int]));
            assert(ov.skip(k as int).drop_first() =~= ov.skip(k as int + 1));
            k = k + 1;
        }
        proof {
            if k < out@.len() {
                assert(ov.skip(k as int)[0] == record_view(out@[k as int]));
            }
        }
        out.insert(k, x);
        assert(record_views(out@) =~= ov.insert(k as int, record_view(x)));
        i = i + 1;
    }
    assert(record_views(records@).take(records@.len() as int) =~= record_views(records@));
    out
}

/// `s` with each run of equal adjacent records kept once (`Vec::dedup`).
pub open spec fn dedup_seq<T>(s: Seq<T>) -> Seq<T>
    decreases s.len(),
{
    if s.len() == 0 {
        s
    } else if s.len() >= 2 && s[s.len() - 2] == s.last() {
        dedup_seq(s.drop_last())
    } else {
        dedup_seq(s.drop_last()).push(s.last())
    }
}

fn opt_same(x: &Option<String>, y: &Option<String>) -> (e: bool)
    ensures
        e == (opt_view(*x) == opt_view(*y)),
{
    match (x, y) {
        (Some(p), Some(q)) => str_eq(p.as_str(), q.as_str()),
        (None, None) => true,
        _ => false,
    }
}

fn same_record(a: &EntryRecord, b: &EntryRecord) -> (r: bool)
    ensures
        r == (record_view(*a) == record_view(*b)),
{
    str_eq(a.key.as_str(), b.key.as_str()) && str_eq(a.kind.as_str(), b.kind.as_str()) && opt_same(&a.runner, &b.runner)
        && opt_same(&a.target_path, &b.target_path) && opt_same(&a.target_node_id, &b.target_node_id)
        && str_eq(a.status.as_str(), b.status.as_str()) && str_eq(a.reason.as_str(), b.reason.as_str())
}

/// The plain values of a list of entry records.
pub open spec fn record_views(s: Seq<EntryRecord>) -> Seq<(Seq<char>, Seq<char>, Option<Seq<char>>, Option<Seq<char>>, Option<Seq<char>>, Seq<char>, Seq<char>)> {
    s.map_values(|x: EntryRecord| record_view(x))
}

/// `records` with each run of equal adjacent records kept once.
pub fn dedup_entries(records: Vec<EntryRecord>) -> (r: Vec<EntryRecord>)
    ensures
        record_views(r@) == dedup_seq(record_views(records@)),
{
    let mut out: Vec<EntryRecord> = Vec::new();
    let mut i: usize = 0;
    assert(record_views(records@).take(0) =~= record_views(out@));
    while i < records.len()
        invariant
            i <= records@.len(),
            record_views(out@) == dedup_seq(record_views(records@).take(i as int)),
        decreases records@.len() - i,
    {
        let ghost t = record_views(records@).take(i as int + 1);
        assert(t.drop_last() =~= record_views(records@).take(i as int));
        assert(t.last() == record_view(records@[i as int]));
        if i > 0 && same_record(&records[i - 1], &records[i]) {
            assert(t[t.len() - 2] == record_view(records@[i - 1]));
        } else {
            if i > 0 {
                assert(t[t.len() - 2] == record_view(records@[i - 1]));
            }
            let ghost before = out@;
            out.push(records[i].clone());
            assert(record_views(out@) =~= record_views(before).push(record_view(records@[i as int])));
        }
        i = i + 1;
    }
    assert(record_views(records@).take(records@.len() as int) =~= record_views(records@));
    out
}

proof fn lemma_dedup_last<T>(s: Seq<T>)
    requires
        s.len() > 0,
    ensures
        dedup_seq(s).len() > 0,
        dedup_seq(s).last() == s.last(),
    decreases s.len(),
{
    if s.len() >= 2 && s[s.len() - 2] == s.last() {
        lemma_dedup_last(s.drop_last());
    }
}

/// The JSON text of one record's effective fields: kind, key, runner, target, status and
/// reason.
pub open spec fn effective_item(r: EntryRecord) -> Seq<char> {
    json_array(
        seq![
            json_string(r.kind@),
            json_string(r.key@),
            json_opt_string(opt_view(r.runner)),
            json_opt_string(opt_view(r.target_path)),
            json_string(r.status@),
            json_string(r.reason@),
        ],
    )
}

/// The JSON text the effective fingerprint of `records` is hashed from.
pub open spec fn effective_json(records: Seq<EntryRecord>) -> Seq<char> {
    json_array(records.map_values(|r: EntryRecord| effective_item(r)))
}

#[verifier::spinoff_prover]
#[verifier::rlimit(40)]
fn push_effective_item(out: &mut String, r: &EntryRecord)
    ensures
        final(out)@ == old(out)@ + effective_item(*r),
{
    let ghost start = out@;
    out.append("[");
    push_json_string(out, r.kind.as_str());
    out.append(",");
    push_json_string(out, r.key.as_str());
    out.append(",");
    push_json_opt_string(out, &r.runner);
    out.append(",");
    push_json_opt_string(out, &r.target_path);
    out.append(",");
    push_json_string(out, r.status.as_str());
    out.append(",");
    push_json_string(out, r.reason.as_str());
    out.append("]");
    proof {
        let items = seq![
            json_string(r.kind@),
            json_string(r.key@),
            json_opt_string(opt_view(r.runner)),
            json_opt_string(opt_view(r.target_path)),
            json_string(r.status@),
            json_string(r.reason@),
        ];
        let s1 = seq![items[0]];
        let s2 = seq![items[0], items[1]];
        let s3 = seq![items[0], items[1], items[2]];
        let s4 = seq![items[0], items[1], items[2], items[3]];
        let s5 = seq![items[0], items[1], items[2], items[3], items[4]];
        assert(s2.drop_last() =~= s1);
        assert(s3.drop_last() =~= s2);
        assert(s4.drop_last() =~= s3);
        assert(s5.drop_last() =~= s4);
        assert(items.drop_last() =~= s5);
        assert(json_items(s1) == items[0]);
        assert(json_items(s2) == items[0] + ","@ + items[1]);
        assert(json_items(s3) == json_items(s2) + ","@ + items[2]);
        assert(json_items(s4) == json_items(s3) + ","@ + items[3]);
        assert(json_items(s5) == json_items(s4) + ","@ + items[4]);
        assert(json_items(items) == json_items(s5) + ","@ + items[5]);
        assert(out@ =~= start + json_array(items));
    }
}

/// The JSON text of `records`' effective fields.
pub fn effective_text(records: &Vec<EntryRecord>) -> (r: String)
    ensures
        r@ == effective_json(records@),
{
    let mut out = "[".to_string();
    let mut i: usize = 0;
    while i < records.len()
        invariant
            i <= records@.len(),
            out@ == "["@ + json_items(records@.take(i as int).map_values(|r: EntryRecord| effective_item(r))),
        decreases records@.len() - i,
    {
        let ghost items = records@.take(i as int + 1).map_values(|r: EntryRecord| effective_item(r));
        assert(items.drop_last() =~= records@.take(i as int).map_values(|r: EntryRecord| effective_item(r)));
        if i > 0 {
            out.append(",");
        }
        push_effective_item(&mut out, &records[i]);
        assert(items.last() == effective_item(records@[i as int]));
        i = i + 1;
    }
    assert(records@.take(records@.len() as int) =~= records@);
    out.append("]");
    out
}

/// The BLAKE3 hash of the UTF-8 bytes of `text`.
pub open spec fn text_hash(text: Seq<char>) -> Seq<char> {
    blake3_hex(vstd::utf8::encode_utf8(text))
}

/// The BLAKE3 hash of the UTF-8 bytes of `text`, in lowercase hexadecimal.
pub fn hash_text(text: &str) -> (r: String)
    ensures
        r@ == text_hash(text@),
{
    blake3_hex_of(text.as_bytes())
}

/// The plain values of an entry manifest.
pub open spec fn manifest_view(m: Option<EntryManifest>) -> Option<(Seq<char>, u64, Seq<char>)> {
    match m {
        Some(m) => Some((m.path@, m.bytes, m.hash@)),
        None => None,
    }
}

/// The entry evidence read from a package manifest, and whether a manifest was there.
pub open spec fn manifest_evidence(
    r: (EntryEvidence, bool),
    bytes: Option<Seq<u8>>,
    parsed: ManifestJson,
    files: Seq<SourceFile>,
) -> bool {
    let e = r.0;
    &&& e.schema_version@ == ENTRY_EVIDENCE_SCHEMA@
    &&& match bytes {
        None => {
            &&& !r.1
            &&& e.status@ == "complete"@
            &&& e.manifest is None
            &&& e.exact_fingerprint@ == text_hash("missing-package-json"@)
            &&& e.effective_fingerprint@ == text_hash("empty-entry-manifest"@)
            &&& e.records@.len() == 0
            &&& !e.truncated
            &&& e.omissions@.len() == 0
            &&& views(e.limitations@) == seq!["root-package-json-absent-no-entry-evidence"@]
        },
        Some(b) => {
            &&& r.1
            &&& manifest_view(e.manifest) == Some(("package.json"@, b.len() as u64, blake3_hex(b)))
            &&& e.exact_fingerprint@ == blake3_hex(b)
            &&& if b.len() > MAX_MANIFEST_BYTES {
                &&& e.status@ == "truncated"@
                &&& e.effective_fingerprint@.len() == 0
                &&& e.records@.len() == 0
                &&& e.truncated
                &&& views(e.omissions@) == seq!["package.json exceeds 1048576 bytes"@]
                &&& views(e.limitations@) == seq!["entry-manifest-byte-bound-reached"@]
            } else {
                match parsed {
                    ManifestJson::Object(fields) => {
                        &&& e.status@ == "complete"@
                        &&& record_views(e.records@) == view_sort(manifest_records(fields, files), false)
                        &&& e.effective_fingerprint@ == text_hash(effective_json(e.records@))
                        &&& !e.truncated
                        &&& e.omissions@.len() == 0
                        &&& views(e.limitations@) == seq![
                            "only-root-package-json-is-considered"@,
                            "package-exports-and-package-manager-wrappers-unsupported"@,
                        ]
                    },
                    _ => {
                        &&& e.status@ == "unavailable"@
                        &&& e.effective_fingerprint@.len() == 0
                        &&& e.records@.len() == 0
                        &&& !e.truncated
                        &&& views(e.omissions@) == seq![
                            if parsed is Invalid {
                                "package-json-invalid"@
                            } else {
                                "package-json-not-object"@
                            },
                        ]
                        &&& views(e.limitations@) == seq!["entry-manifest-cannot-be-parsed"@]
                    },
                }
            }
        },
    }
}

fn one(s: &str) -> (r: Vec<String>)
    ensures
        views(r@) == seq![s@],
{
    let mut v: Vec<String> = Vec::new();
    v.push(s.to_string());
    assert(views(v@) =~= seq![s@]);
    v
}

/// The entry evidence of the root package manifest: `bytes` is its content, when it
/// exists, and `parsed` what reading that content as JSON gave.
pub fn parse_manifest(bytes: Option<&[u8]>, parsed: ManifestJson, files: &[SourceFile]) -> (r: (EntryEvidence, bool))
    ensures
        manifest_evidence(r, match bytes {
            Some(b) => Some(b@),
            None => None,
        }, parsed, files@),
{
    let bytes = match bytes {
        None => {
            let e = EntryEvidence {
                schema_version: ENTRY_EVIDENCE_SCHEMA.to_string(),
                status: "complete".to_string(),
                manifest: None,
                exact_fingerprint: hash_text("missing-package-json"),
                effective_fingerprint: hash_text("empty-entry-manifest"),
                records: Vec::new(),
                truncated: false,
                omissions: Vec::new(),
                limitations: one("root-package-json-absent-no-entry-evidence"),
            };
            return (e, false);
        },
        Some(b) => b,
    };
    let hash = blake3_hex_of(bytes);
    let manifest = EntryManifest { path: "package.json".to_string(), bytes: bytes.len() as u64, hash: hash.clone() };
    if bytes.len() > MAX_MANIFEST_BYTES {
        let e = EntryEvidence {
            schema_version: ENTRY_EVIDENCE_SCHEMA.to_string(),
            status: "truncated".to_string(),
            manifest: Some(manifest),
            exact_fingerprint: hash,
            effective_fingerprint: String::new(),
            records: Vec::new(),
            truncated: true,
            omissions: one("package.json exceeds 1048576 bytes"),
            limitations: one("entry-manifest-byte-bound-reached"),
        };
        return (e, true);
    }
    let fields = match parsed {
        ManifestJson::Object(f) => f,
        ManifestJson::Invalid => {
            return (unavailable_manifest(manifest, hash, "package-json-invalid"), true);
        },
        ManifestJson::NotObject => {
            return (unavailable_manifest(manifest, hash, "package-json-not-object"), true);
        },
    };
    let read = read_records(&fields, files);
    let records = sort_entries(read, false);
    let effective = effective_text(&records);
    let effective_fingerprint = hash_text(effective.as_str());
    let mut limitations: Vec<String> = Vec::new();
    limitations.push("only-root-package-json-is-considered".to_string());
    limitations.push("package-exports-and-package-manager-wrappers-unsupported".to_string());
    assert(views(limitations@) =~= seq![
        "only-root-package-json-is-considered"@,
        "package-exports-and-package-manager-wrappers-unsupported"@,
    ]);
    let e = EntryEvidence {
        schema_version: ENTRY_EVIDENCE_SCHEMA.to_string(),
        status: "complete".to_string(),
        manifest: Some(manifest),
        exact_fingerprint: hash,
        effective_fingerprint,
        records,
        truncated: false,
        omissions: Vec::new(),
        limitations,
    };
    (e, true)
}

/// Entry evidence of a manifest that cannot be parsed.
pub fn unavailable_manifest(manifest: EntryManifest, exact_fingerprint: String, reason: &str) -> (r: EntryEvidence)
    ensures
        r.schema_version@ == ENTRY_EVIDENCE_SCHEMA@,
        r.status@ == "unavailable"@,
        r.manifest == Some(manifest),
        r.exact_fingerprint == exact_fingerprint,
        r.effective_fingerprint@.len() == 0,
        r.records@.len() == 0,
        !r.truncated,
        views(r.omissions@) == seq![reason@],
        views(r.limitations@) == seq!["entry-manifest-cannot-be-parsed"@],
{
    EntryEvidence {
        schema_version: ENTRY_EVIDENCE_SCHEMA.to_string(),
        status: "unavailable".to_string(),
        manifest: Some(manifest),
        exact_fingerprint,
        effective_fingerprint: String::new(),
        records: Vec::new(),
        truncated: false,
        omissions: one(reason),
        limitations: one("entry-manifest-cannot-be-parsed"),
    }
}

} // verus!
