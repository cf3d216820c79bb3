//! The persisted configuration record: credential and known repositories
//! in the same pretty-printed text form as the task record, with a
//! verified writer and reader and a round-trip proof.

use vstd::prelude::*;
use vstd::seq_lib::lemma_concat_associative;
use vstd::string::StringExecFns;
use crate::codec::append_escaped;
use crate::codec::escape_seq;
use crate::codec::lemma_parse_escaped;
use crate::codec::lemma_parse_lit_exact;
use crate::codec::p_lit;
use crate::codec::p_string;
use crate::codec::parse_lit;
use crate::codec::parse_string_body;
use crate::codec::str_chars;
use crate::model::Config;
use crate::model::ConfigView;
use crate::model::Repository;
use crate::model::RepositoryView;
use crate::records::empty_list;
use crate::records::null_lit;
use crate::records::parse_qfield;
use crate::records::qfield;
use crate::records::quote;
use crate::records::rbrace;
use crate::records::lemma_parse_qfield;

verus! {

/// Opening of the configuration object, up to the credential value.
pub open spec fn cfg_open() -> Seq<char> {
    "{\n  \"github_token\": "@
}

/// Label between the credential and the repository list.
pub open spec fn cfg_mid() -> Seq<char> {
    ",\n  \"repositories\": "@
}

/// Closing of the configuration object.
pub open spec fn cfg_close() -> Seq<char> {
    "\n}"@
}

/// Opening of a repository object, up to its owner value.
pub open spec fn ro_owner() -> Seq<char> {
    "{\"owner\": \""@
}

/// Label before the repository name value.
pub open spec fn ro_name() -> Seq<char> {
    ", \"name\": \""@
}

/// Label before the display name value.
pub open spec fn ro_display() -> Seq<char> {
    ", \"display_name\": \""@
}

/// Opening of a non-empty repository list.
pub open spec fn r_open() -> Seq<char> {
    "[\n    "@
}

/// Closing of a non-empty repository list.
pub open spec fn r_close() -> Seq<char> {
    "\n  ]"@
}

/// Separator between repository objects.
pub open spec fn r_sep() -> Seq<char> {
    ",\n    "@
}

/// The written form of the optional credential.
pub open spec fn token_text(o: Option<Seq<char>>) -> Seq<char> {
    match o {
        None => null_lit(),
        Some(s) => quote() + escape_seq(s) + quote(),
    }
}

/// The written form of one repository.
pub open spec fn repo_obj(r: RepositoryView) -> Seq<char> {
    qfield(ro_owner(), r.owner) + qfield(ro_name(), r.name) + qfield(ro_display(), r.display_name)
        + rbrace()
}

/// The written form of a non-empty repository list, without brackets.
pub open spec fn repos_items(rs: Seq<RepositoryView>) -> Seq<char>
    decreases rs.len(),
{
    if rs.len() == 0 {
        Seq::empty()
    } else if rs.len() == 1 {
        repo_obj(rs[0])
    } else {
        repo_obj(rs[0]) + r_sep() + repos_items(rs.drop_first())
    }
}

/// The written form of the repository list.
pub open spec fn repos_text(rs: Seq<RepositoryView>) -> Seq<char> {
    if rs.len() == 0 {
        empty_list()
    } else {
        r_open() + repos_items(rs) + r_close()
    }
}

/// The full written form of the configuration.
pub open spec fn config_text(c: ConfigView) -> Seq<char> {
    cfg_open() + token_text(c.github_token) + cfg_mid() + repos_text(c.repositories) + cfg_close()
}

/// Consumes the written credential: `null` or a quoted value.
pub open spec fn parse_token(s: Seq<char>) -> Option<(Option<Seq<char>>, Seq<char>)> {
    match parse_lit(s, null_lit()) {
        Some(r) => Some((None, r)),
        None => match parse_lit(s, quote()) {
            None => None,
            Some(r) => match parse_string_body(r) {
                None => None,
                Some((v, r2)) => Some((Some(v), r2)),
            },
        },
    }
}

/// Consumes one written repository.
pub open spec fn parse_repo_obj(s: Seq<char>) -> Option<(RepositoryView, Seq<char>)> {
    match parse_qfield(s, ro_owner()) {
        None => None,
        Some((owner, s1)) => match parse_qfield(s1, ro_name()) {
            None => None,
            Some((name, s2)) => match parse_qfield(s2, ro_display()) {
                None => None,
                Some((display_name, s3)) => match parse_lit(s3, rbrace()) {
                    None => None,
                    Some(s4) => Some((RepositoryView { owner, name, display_name }, s4)),
                },
            },
        },
    }
}

/// Consumes one or more written repositories separated by the separator.
pub open spec fn parse_repos_items(s: Seq<char>) -> Option<(Seq<RepositoryView>, Seq<char>)>
    decreases s.len(),
{
    match parse_repo_obj(s) {
        None => None,
        Some((r, rem)) => match parse_lit(rem, r_sep()) {
            Some(rem2) => if rem2.len() < s.len() {
                match parse_repos_items(rem2) {
                    None => None,
                    Some((rs, rem3)) => Some((seq![r] + rs, rem3)),
                }
            } else {
                None
            },
            None => Some((seq![r], rem)),
        },
    }
}

/// Consumes the written repository list.
pub open spec fn parse_repos(s: Seq<char>) -> Option<(Seq<RepositoryView>, Seq<char>)> {
    match parse_lit(s, empty_list()) {
        Some(r) => Some((Seq::empty(), r)),
        None => match parse_lit(s, r_open()) {
            None => None,
            Some(r) => match parse_repos_items(r) {
                None => None,
                Some((rs, r2)) => match parse_lit(r2, r_close()) {
                    None => None,
                    Some(r3) => Some((rs, r3)),
                },
            },
        },
    }
}

/// Reads a whole written configuration.
pub open spec fn parse_config_text(s: Seq<char>) -> Option<ConfigView> {
    match parse_lit(s, cfg_open()) {
        None => None,
        Some(s1) => match parse_token(s1) {
            None => None,
            Some((github_token, s2)) => match parse_lit(s2, cfg_mid()) {
                None => None,
                Some(s3) => match parse_repos(s3) {
                    None => None,
                    Some((repositories, s4)) => if s4 == cfg_close() {
                        Some(ConfigView { github_token, repositories })
                    } else {
                        None
                    },
                },
            },
        },
    }
}

/// A written credential reads back as the credential it was written from.
pub proof fn lemma_parse_token(o: Option<Seq<char>>, rest: Seq<char>)
    ensures
        parse_token(token_text(o) + rest) == Some((o, rest)),
{
    reveal_strlit("null");
    reveal_strlit("\"");
    let s = token_text(o) + rest;
    match o {
        None => {
            lemma_parse_lit_exact(null_lit(), rest);
        },
        Some(v) => {
            let inner = escape_seq(v) + quote() + rest;
            lemma_concat_associative(quote() + escape_seq(v), quote(), rest);
            lemma_concat_associative(quote(), escape_seq(v), quote() + rest);
            lemma_concat_associative(escape_seq(v), quote(), rest);
            assert(s == quote() + inner);
            assert(s[0] == '"');
            if null_lit().len() <= s.len() {
                assert(s.take(null_lit().len() as int)[0] == s[0]);
                assert(s.take(null_lit().len() as int) != null_lit());
            }
            assert(parse_lit(s, null_lit()) is None);
            lemma_parse_lit_exact(quote(), inner);
            assert(quote() =~= seq!['"']);
            assert(inner =~= escape_seq(v) + seq!['"'] + rest);
            lemma_parse_escaped(v, rest);
        },
    }
}

/// A written repository reads back as the repository it was written from.
pub proof fn lemma_parse_repo_obj(r: RepositoryView, rest: Seq<char>)
    ensures
        parse_repo_obj(repo_obj(r) + rest) == Some((r, rest)),
{
    let s = repo_obj(r) + rest;
    let q1 = qfield(ro_owner(), r.owner);
    let q2 = qfield(ro_name(), r.name);
    let q3 = qfield(ro_display(), r.display_name);
    let c2 = q1 + q2;
    let c3 = c2 + q3;
    assert(repo_obj(r) == c3 + rbrace());
    let s3 = rbrace() + rest;
    lemma_concat_associative(c3, rbrace(), rest);
    assert(s == c3 + s3);
    let s2 = q3 + s3;
    lemma_concat_associative(c2, q3, s3);
    assert(s == c2 + s2);
    let s1 = q2 + s2;
    lemma_concat_associative(q1, q2, s2);
    assert(s == q1 + s1);
    lemma_parse_qfield(ro_owner(), r.owner, s1);
    lemma_parse_qfield(ro_name(), r.name, s2);
    lemma_parse_qfield(ro_display(), r.display_name, s3);
    lemma_parse_lit_exact(rbrace(), rest);
    let rv = RepositoryView { owner: r.owner, name: r.name, display_name: r.display_name };
    assert(rv =~= r);
    assert(parse_repo_obj(s) == Some((r, rest)));
}

/// A written repository sequence reads back as the sequence it was written
/// from, provided what follows cannot be mistaken for a separator.
pub proof fn lemma_repos_items_round(rs: Seq<RepositoryView>, rest: Seq<char>)
    requires
        rs.len() > 0,
        parse_lit(rest, r_sep()) is None,
    ensures
        parse_repos_items(repos_items(rs) + rest) == Some((rs, rest)),
    decreases rs.len(),
{
    reveal_strlit("{\"owner\": \"");
    reveal_strlit(",\n    ");
    let s = repos_items(rs) + rest;
    if rs.len() == 1 {
        lemma_parse_repo_obj(rs[0], rest);
        assert(seq![rs[0]] =~= rs);
    } else {
        let tail = repos_items(rs.drop_first());
        assert(repos_items(rs) == repo_obj(rs[0]) + r_sep() + tail);
        let r0 = r_sep() + tail + rest;
        assert(s =~= repo_obj(rs[0]) + r0);
        lemma_parse_repo_obj(rs[0], r0);
        let r2 = tail + rest;
        assert(r0 =~= r_sep() + r2);
        lemma_parse_lit_exact(r_sep(), r2);
        assert(ro_owner().len() == 11);
        assert(qfield(ro_owner(), rs[0].owner).len() >= 11);
        assert(repo_obj(rs[0]).len() >= 11);
        assert(r_sep().len() == 6);
        assert(r2.len() < s.len());
        lemma_repos_items_round(rs.drop_first(), rest);
        assert(seq![rs[0]] + rs.drop_first() =~= rs);
    }
}

/// A written repository list reads back as the list it was written from,
/// provided what follows does not begin like a separator.
pub proof fn lemma_parse_repos(rs: Seq<RepositoryView>, rest: Seq<char>)
    requires
        rest.len() > 0,
        rest[0] != ',',
    ensures
        parse_repos(repos_text(rs) + rest) == Some((rs, rest)),
{
    reveal_strlit("[]");
    reveal_strlit("[\n    ");
    reveal_strlit("\n  ]");
    reveal_strlit(",\n    ");
    let s = repos_text(rs) + rest;
    if rs.len() == 0 {
        lemma_parse_lit_exact(empty_list(), rest);
    } else {
        let items = repos_items(rs);
        let c2 = r_open() + items;
        assert(repos_text(rs) == c2 + r_close());
        let s2 = r_close() + rest;
        lemma_concat_associative(c2, r_close(), rest);
        assert(s == c2 + s2);
        let s1 = items + s2;
        lemma_concat_associative(r_open(), items, s2);
        assert(s == r_open() + s1);
        assert(s[0] == '[' && s[1] == '\n');
        assert(empty_list().len() == 2);
        if empty_list().len() <= s.len() {
            assert(s.take(2)[1] == s[1]);
            assert(s.take(2) != empty_list());
        }
        assert(parse_lit(s, empty_list()) is None);
        lemma_parse_lit_exact(r_open(), s1);
        assert(s2[0] == '\n');
        assert(r_sep().len() == 6);
        if r_sep().len() <= s2.len() {
            assert(s2.take(6)[0] == s2[0]);
            assert(s2.take(6) != r_sep());
        }
        assert(parse_lit(s2, r_sep()) is None);
        lemma_repos_items_round(rs, s2);
        lemma_parse_lit_exact(r_close(), rest);
        assert(parse_repos(s) == Some((rs, rest)));
    }
}

/// Writing the configuration and reading the text back yields the same
/// configuration: its persistence round-trips exactly.
pub proof fn lemma_config_round_trip(c: ConfigView)
    ensures
        parse_config_text(config_text(c)) == Some(c),
{
    reveal_strlit(",\n  \"repositories\": ");
    reveal_strlit("\n}");
    let s = config_text(c);
    let tok = token_text(c.github_token);
    let reps = repos_text(c.repositories);
    let c2 = cfg_open() + tok;
    let c3 = c2 + cfg_mid();
    let c4 = c3 + reps;
    assert(s == c4 + cfg_close());
    let s4 = cfg_close();
    lemma_concat_associative(c3, reps, cfg_close());
    assert(s == c3 + (reps + s4));
    let s3 = reps + s4;
    lemma_concat_associative(c2, cfg_mid(), s3);
    assert(s == c2 + (cfg_mid() + s3));
    let s2 = cfg_mid() + s3;
    lemma_concat_associative(cfg_open(), tok, s2);
    assert(s == cfg_open() + (tok + s2));
    let s1 = tok + s2;
    lemma_parse_lit_exact(cfg_open(), s1);
    lemma_parse_token(c.github_token, s2);
    lemma_parse_lit_exact(cfg_mid(), s3);
    assert(cfg_close().len() == 2 && cfg_close()[0] == '\n');
    assert(s4[0] != ',');
    lemma_parse_repos(c.repositories, s4);
    let cv = ConfigView { github_token: c.github_token, repositories: c.repositories };
    assert(cv =~= c);
    assert(parse_config_text(s) == Some(c));
}

/// Appends the written form of one repository.
fn append_repo_obj(out: &mut String, r: &Repository)
    ensures
        final(out)@ == old(out)@ + repo_obj(r.deep_view()),
{
    let ghost o0 = out@;
    let ghost rv = r.deep_view();
    out.append("{\"owner\": \"");
    append_escaped(out, r.owner.as_str());
    out.append("\"");
    proof {
        assert(out@ =~= o0 + qfield(ro_owner(), rv.owner));
    }
    let ghost c1 = qfield(ro_owner(), rv.owner);
    out.append(", \"name\": \"");
    append_escaped(out, r.name.as_str());
    out.append("\"");
    let ghost c2 = c1 + qfield(ro_name(), rv.name);
    proof {
        assert(out@ =~= o0 + c2);
    }
    out.append(", \"display_name\": \"");
    append_escaped(out, r.display_name.as_str());
    out.append("\"");
    let ghost c3 = c2 + qfield(ro_display(), rv.display_name);
    proof {
        assert(out@ =~= o0 + c3);
    }
    out.append("}");
    proof {
        assert(repo_obj(rv) == c3 + rbrace());
        assert(out@ =~= o0 + repo_obj(rv));
    }
}

/// Extending the list appends one written repository at the end.
proof fn lemma_repos_items_push(s: Seq<RepositoryView>, r: RepositoryView)
    ensures
        repos_items(s.push(r)) == if s.len() == 0 {
            repo_obj(r)
        } else {
            repos_items(s) + r_sep() + repo_obj(r)
        },
    decreases s.len(),
{
    if s.len() == 0 {
        assert(s.push(r)[0] == r);
        assert(repos_items(s.push(r)) == repo_obj(r));
    } else {
        assert(s.push(r)[0] == s[0]);
        assert(s.push(r).drop_first() =~= s.drop_first().push(r));
        lemma_repos_items_push(s.drop_first(), r);
        if s.len() == 1 {
            assert(repos_items(s.push(r)) == repo_obj(s[0]) + r_sep() + repos_items(
                s.drop_first().push(r),
            ));
            assert(s.drop_first().push(r) =~= seq![r]);
            assert(repos_items(seq![r]) == repo_obj(r));
            assert(repos_items(s) == repo_obj(s[0]));
        } else {
            assert(repos_items(s.push(r)) == repo_obj(s[0]) + r_sep() + repos_items(
                s.drop_first().push(r),
            ));
            assert(repos_items(s) == repo_obj(s[0]) + r_sep() + repos_items(s.drop_first()));
            assert(repos_items(s.push(r)) =~= repos_items(s) + r_sep() + repo_obj(r));
        }
    }
}

/// Writes the whole configuration in its persisted text form.
pub fn config_to_text(c: &Config) -> (r: String)
    ensures
        r@ == config_text(c.deep_view()),
{
    let ghost cv = c.deep_view();
    let mut out = String::new();
    out.append("{\n  \"github_token\": ");
    match &c.github_token {
        None => {
            out.append("null");
        },
        Some(tok) => {
            out.append("\"");
            append_escaped(&mut out, tok.as_str());
            out.append("\"");
        },
    }
    proof {
        assert(out@ =~= cfg_open() + token_text(cv.github_token));
    }
    let ghost c2 = cfg_open() + token_text(cv.github_token);
    out.append(",\n  \"repositories\": ");
    let ghost c3 = c2 + cfg_mid();
    proof {
        assert(out@ == c3);
    }
    let ghost rsv = c.repositories.deep_view();
    proof {
        assert(rsv.len() == c.repositories@.len());
    }
    if c.repositories.len() == 0 {
        out.append("[]");
        proof {
            assert(out@ =~= c3 + repos_text(rsv));
        }
    } else {
        out.append("[\n    ");
        let mut i: usize = 0;
        while i < c.repositories.len()
            invariant
                i <= c.repositories@.len(),
                rsv == c.repositories.deep_view(),
                rsv.len() == c.repositories@.len(),
                c.repositories@.len() > 0,
                c3 == cfg_open() + token_text(c.deep_view().github_token) + cfg_mid(),
                i == 0 ==> out@ == c3 + r_open(),
                i > 0 ==> out@ == c3 + r_open() + repos_items(rsv.take(i as int)),
            decreases c.repositories@.len() - i,
        {
            if i > 0 {
                out.append(",\n    ");
            }
            append_repo_obj(&mut out, &c.repositories[i]);
            proof {
                assert(c.repositories[i as int].deep_view() == rsv[i as int]);
                lemma_repos_items_push(rsv.take(i as int), rsv[i as int]);
                assert(rsv.take(i + 1) =~= rsv.take(i as int).push(rsv[i as int]));
                assert(out@ =~= c3 + r_open() + repos_items(rsv.take(i + 1)));
            }
            i = i + 1;
        }
        out.append("\n  ]");
        proof {
            assert(rsv.take(rsv.len() as int) =~= rsv);
            assert(out@ =~= c3 + repos_text(rsv));
        }
    }
    out.append("\n}");
    proof {
        assert(out@ =~= config_text(cv));
    }
    out
}

/// Consumes the written credential at position `i`, appending a present
/// value to `tok`.
fn p_token(v: &Vec<char>, i: usize, tok: &mut String) -> (r: Option<(bool, usize)>)
    requires
        i <= v@.len(),
        old(tok)@.len() == 0,
    ensures
        match r {
            Some(p) => p.1 <= v@.len() && parse_token(v@.skip(i as int)) is Some && ({
                let q = parse_token(v@.skip(i as int))->0;
                &&& v@.skip(p.1 as int) == q.1
                &&& (p.0 ==> q.0 == Some(final(tok)@))
                &&& (!p.0 ==> q.0 is None)
            }),
            None => parse_token(v@.skip(i as int)) is None,
        },
{
    match p_lit(v, i, "null") {
        Some(j) => Some((false, j)),
        None => {
            match p_lit(v, i, "\"") {
                None => None,
                Some(j) => {
                    match p_string(v, j, tok) {
                        None => None,
                        Some(j2) => Some((true, j2)),
                    }
                },
            }
        },
    }
}

/// Consumes one written repository at position `i`.
fn p_repo_obj(v: &Vec<char>, i: usize) -> (r: Option<(Repository, usize)>)
    requires
        i <= v@.len(),
    ensures
        match r {
            Some(p) => i < p.1 <= v@.len() && parse_repo_obj(v@.skip(i as int)) == Some(
                (p.0.deep_view(), v@.skip(p.1 as int)),
            ),
            None => parse_repo_obj(v@.skip(i as int)) is None,
        },
{
    let j1 = match p_lit(v, i, "{\"owner\": \"") {
        Some(j) => j,
        None => {
            return None;
        },
    };
    let mut owner = String::new();
    let j2 = match p_string(v, j1, &mut owner) {
        Some(j) => j,
        None => {
            return None;
        },
    };
    let j3 = match p_lit(v, j2, ", \"name\": \"") {
        Some(j) => j,
        None => {
            return None;
        },
    };
    let mut name = String::new();
    let j4 = match p_string(v, j3, &mut name) {
        Some(j) => j,
        None => {
            return None;
        },
    };
    let j5 = match p_lit(v, j4, ", \"display_name\": \"") {
        Some(j) => j,
        None => {
            return None;
        },
    };
    let mut display_name = String::new();
    let j6 = match p_string(v, j5, &mut display_name) {
        Some(j) => j,
        None => {
            return None;
        },
    };
    let j7 = match p_lit(v, j6, "}") {
        Some(j) => j,
        None => {
            return None;
        },
    };
    Some((Repository { owner, name, display_name }, j7))
}

/// Consumes one or more written repositories at position `i`, appending
/// them to `out`.
fn p_repos_items(v: &Vec<char>, i: usize, out: &mut Vec<Repository>) -> (r: Option<usize>)
    requires
        i <= v@.len(),
    ensures
        match r {
            Some(j) => j <= v@.len() && parse_repos_items(v@.skip(i as int)) is Some
                && final(out).deep_view() == old(out).deep_view()
                + (parse_repos_items(v@.skip(i as int))->0).0
                && v@.skip(j as int) == (parse_repos_items(v@.skip(i as int))->0).1,
            None => parse_repos_items(v@.skip(i as int)) is None,
        },
    decreases v@.len() - i,
{
    let (rep, j) = match p_repo_obj(v, i) {
        Some(p) => p,
        None => {
            return None;
        },
    };
    let ghost rv = rep.deep_view();
    out.push(rep);
    proof {
        assert(out.deep_view() =~= old(out).deep_view().push(rv));
    }
    match p_lit(v, j, ",\n    ") {
        Some(j2) => {
            proof {
                reveal_strlit(",\n    ");
                assert(r_sep().len() == 6);
                assert(v@.skip(j as int).skip(6) == v@.skip(j2 as int));
                assert(v@.skip(j2 as int).len() == v@.skip(j as int).len() - 6);
                assert(v@.skip(j2 as int).len() < v@.skip(i as int).len());
            }
            match p_repos_items(v, j2, out) {
                Some(j3) => {
                    proof {
                        let tail = (parse_repos_items(v@.skip(j2 as int))->0).0;
                        assert(out.deep_view() == (old(out).deep_view().push(rv)) + tail);
                        assert(out.deep_view() =~= old(out).deep_view() + (seq![rv] + tail));
                    }
                    Some(j3)
                },
                None => None,
            }
        },
        None => {
            proof {
                assert(out.deep_view() =~= old(out).deep_view() + seq![rv]);
            }
            Some(j)
        },
    }
}

/// Consumes the written repository list at position `i`.
fn p_repos(v: &Vec<char>, i: usize, out: &mut Vec<Repository>) -> (r: Option<usize>)
    requires
        i <= v@.len(),
        old(out)@.len() == 0,
    ensures
        match r {
            Some(j) => j <= v@.len() && parse_repos(v@.skip(i as int)) is Some
                && final(out).deep_view() == (parse_repos(v@.skip(i as int))->0).0 && v@.skip(
                j as int,
            ) == (parse_repos(v@.skip(i as int))->0).1,
            None => parse_repos(v@.skip(i as int)) is None,
        },
{
    proof {
        assert(old(out).deep_view() =~= Seq::<RepositoryView>::empty());
    }
    match p_lit(v, i, "[]") {
        Some(j) => {
            proof {
                assert(out.deep_view() =~= Seq::<RepositoryView>::empty());
            }
            Some(j)
        },
        None => {
            let j = match p_lit(v, i, "[\n    ") {
                Some(j) => j,
                None => {
                    return None;
                },
            };
            let j2 = match p_repos_items(v, j, out) {
                Some(j2) => j2,
                None => {
                    return None;
                },
            };
            match p_lit(v, j2, "\n  ]") {
                Some(j3) => {
                    proof {
                        assert(out.deep_view() =~= Seq::<RepositoryView>::empty()
                            + out.deep_view());
                    }
                    Some(j3)
                },
                None => None,
            }
        },
    }
}

/// Reads a whole written configuration; yields it when the text is exactly
/// the written form of one.
pub fn config_from_text(s: &str) -> (r: Option<Config>)
    ensures
        match r {
            Some(c) => parse_config_text(s@) == Some(c.deep_view()),
            None => parse_config_text(s@) is None,
        },
{
    let v = str_chars(s);
    proof {
        assert(v@.skip(0) =~= s@);
        reveal_strlit("\n}");
    }
    let j0 = match p_lit(&v, 0, "{\n  \"github_token\": ") {
        Some(j) => j,
        None => {
            return None;
        },
    };
    let mut tok = String::new();
    let (has_tok, j1) = match p_token(&v, j0, &mut tok) {
        Some(p) => p,
        None => {
            return None;
        },
    };
    let j2 = match p_lit(&v, j1, ",\n  \"repositories\": ") {
        Some(j) => j,
        None => {
            return None;
        },
    };
    let mut repositories: Vec<Repository> = Vec::new();
    let j3 = match p_repos(&v, j2, &mut repositories) {
        Some(j) => j,
        None => {
            return None;
        },
    };
    let n = v.len();
    if n - j3 == 2 && v[j3] == '\n' && v[j3 + 1] == '}' {
        proof {
            assert(v@.skip(j3 as int) =~= cfg_close());
        }
        let github_token = if has_tok {
            Some(tok)
        } else {
            None
        };
        let c = Config { github_token, repositories };
        proof {
            assert(parse_config_text(s@) == Some(c.deep_view()));
        }
        Some(c)
    } else {
        proof {
            if v@.skip(j3 as int) == cfg_close() {
                assert(v@.skip(j3 as int).len() == 2);
                assert(v@.skip(j3 as int)[0] == '\n' && v@.skip(j3 as int)[1] == '}');
                assert(false);
            }
        }
        None
    }
}

} // verus!
