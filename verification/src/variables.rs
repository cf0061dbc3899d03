//! Variable substitution over the raw configuration text: every
//! `${name}` occurrence is replaced by the value defined for `name`,
//! scanning left to right in a single pass. An undefined name fails the
//! whole load — before anything touches the target host. Text without a
//! closing brace, and the empty form `${}`, are kept as written.

use vstd::prelude::*;

use vstd::string::StringExecFns;
use vstd::string::StrSliceExecFns;

verus! {

/// One substitution variable: a name and its replacement text.
pub struct VarDef {
    pub name: String,
    pub value: String,
}

/// The value defined for `name`, searching in order; the first definition
/// wins.
pub open spec fn lookup_var(vars: Seq<VarDef>, name: Seq<char>) -> Option<Seq<char>>
    decreases vars.len(),
{
    if vars.len() == 0 {
        None
    } else if vars[0].name@ == name {
        Some(vars[0].value@)
    } else {
        lookup_var(vars.drop_first(), name)
    }
}

/// The position of the first closing brace at or after `from`, if any.
pub open spec fn find_close(content: Seq<char>, from: int) -> Option<int>
    decreases content.len() - from,
{
    if from < 0 || from >= content.len() {
        None
    } else if content[from] == '}' {
        Some(from)
    } else {
        find_close(content, from + 1)
    }
}

/// A found closing brace lies between `from` and the end of the text, and
/// no closing brace comes before it.
pub proof fn lemma_find_close(content: Seq<char>, from: int)
    requires
        0 <= from,
    ensures
        match find_close(content, from) {
            Some(k) => {
                &&& from <= k < content.len()
                &&& content[k] == '}'
                &&& forall|t: int| from <= t < k ==> content[t] != '}'
            },
            None => forall|t: int| from <= t < content.len() ==> content[t] != '}',
        },
    decreases content.len() - from,
{
    if from < content.len() && content[from] != '}' {
        lemma_find_close(content, from + 1);
    }
}

/// The text after substitution, or nothing when an undefined name occurs.
pub open spec fn substituted(content: Seq<char>, vars: Seq<VarDef>) -> Option<Seq<char>>
    decreases content.len(),
{
    if content.len() == 0 {
        Some(Seq::empty())
    } else if content.len() >= 2 && content[0] == '$' && content[1] == '{' {
        match find_close(content, 2) {
            Some(k) => {
                proof {
                    lemma_find_close(content, 2);
                }
                if k == 2 {
                    match substituted(content.skip(3), vars) {
                        Some(rest) => Some(seq!['$', '{', '}'] + rest),
                        None => None,
                    }
                } else {
                    match lookup_var(vars, content.subrange(2, k)) {
                        Some(value) => match substituted(content.skip(k + 1), vars) {
                            Some(rest) => Some(value + rest),
                            None => None,
                        },
                        None => None,
                    }
                }
            },
            None => Some(content),
        }
    } else {
        match substituted(content.drop_first(), vars) {
            Some(rest) => Some(seq![content[0]] + rest),
            None => None,
        }
    }
}

/// The value defined for `name`, searching in order.
fn lookup_value(vars: &Vec<VarDef>, name: &String) -> (r: Option<String>)
    ensures
        match r {
            Some(v) => lookup_var(vars@, name@) == Some(v@),
            None => lookup_var(vars@, name@) is None,
        },
{
    let mut j: usize = 0;
    proof {
        assert(vars@.skip(0) =~= vars@);
    }
    while j < vars.len()
        invariant
            0 <= j <= vars.len(),
            lookup_var(vars@, name@) == lookup_var(vars@.skip(j as int), name@),
        decreases vars.len() - j,
    {
        proof {
            assert(vars@.skip(j as int)[0] == vars@[j as int]);
            assert(vars@.skip(j as int).drop_first() =~= vars@.skip(j as int + 1));
        }
        if vars[j].name == *name {
            return Some(vars[j].value.clone());
        }
        j += 1;
    }
    proof {
        assert(vars@.skip(vars@.len() as int).len() == 0);
    }
    None
}

/// The position of the first closing brace at or after `from`, if any.
fn find_close_index(s: &str, from: usize, n: usize) -> (r: Option<usize>)
    requires
        from <= n,
        n == s@.len(),
    ensures
        match r {
            Some(k) => find_close(s@, from as int) == Some(k as int) && from <= k < n,
            None => find_close(s@, from as int) is None,
        },
{
    let mut k: usize = from;
    while k < n
        invariant
            from <= k <= n,
            n == s@.len(),
            find_close(s@, from as int) == find_close(s@, k as int),
        decreases n - k,
    {
        if s.get_char(k) == '}' {
            return Some(k);
        }
        k += 1;
    }
    None
}

/// Substitute every `${name}` occurrence in `content` by its defined value,
/// left to right in one pass. An undefined name is returned as the error.
pub fn replace_variables(content: &String, vars: &Vec<VarDef>) -> (r: Result<String, String>)
    ensures
        match r {
            Ok(out) => substituted(content@, vars@) == Some(out@),
            Err(name) => substituted(content@, vars@) is None && lookup_var(vars@, name@) is None,
        },
{
    let ghost whole = content@;
    let n = content.as_str().unicode_len();
    let mut out = String::new();
    let mut i: usize = 0;
    proof {
        assert(whole.skip(0) =~= whole);
        match substituted(whole, vars@) {
            Some(rest) => {
                assert(out@ + rest =~= rest);
            },
            None => {},
        }
    }
    while i < n
        invariant
            0 <= i <= n,
            n == whole.len(),
            whole == content@,
            substituted(whole, vars@) == (match substituted(whole.skip(i as int), vars@) {
                Some(rest) => Some(out@ + rest),
                None => None::<Seq<char>>,
            }),
        decreases n - i,
    {
        let ghost tail = whole.skip(i as int);
        let ghost out0 = out@;
        let c = content.as_str().get_char(i);
        let opens = c == '$' && i + 1 < n && content.as_str().get_char(i + 1) == '{';
        proof {
            assert(tail.len() == n - i);
            assert(tail[0] == whole[i as int]);
            if i + 1 < n {
                assert(tail[1] == whole[i as int + 1]);
            }
        }
        if opens {
            proof {
                lemma_find_close(whole, i as int + 2);
                assert forall|t: int| 0 <= t < tail.len() implies tail[t] == whole[i as int + t] by {}
                match find_close(whole, i as int + 2) {
                    Some(k) => {
                        assert(tail[k - i as int] == '}');
                        assert forall|t: int| 2 <= t < k - i as int implies tail[t] != '}' by {
                            assert(tail[t] == whole[i as int + t]);
                        }
                        lemma_find_close_exact(tail, 2, k - i as int);
                    },
                    None => {
                        assert forall|t: int| 2 <= t < tail.len() implies tail[t] != '}' by {
                            assert(tail[t] == whole[i as int + t]);
                        }
                        lemma_find_close_none(tail, 2);
                    },
                }
            }
            match find_close_index(content.as_str(), i + 2, n) {
                Some(k) => {
                    proof {
                        assert(find_close(tail, 2) == Some(k - i as int));
                    }
                    if k == i + 2 {
                        // `${}`: kept as written
                        out.append("${}");
                        proof {
                            reveal_strlit("${}");
                            assert("${}"@ =~= seq!['$', '{', '}']);
                            assert(tail.skip(3) =~= whole.skip(k as int + 1));
                            assert(out@ =~= out0 + seq!['$', '{', '}']);
                            match substituted(whole.skip(k as int + 1), vars@) {
                                Some(rest) => {
                                    assert(substituted(tail, vars@) == Some(
                                        seq!['$', '{', '}'] + rest,
                                    ));
                                    assert(out0 + (seq!['$', '{', '}'] + rest) =~= out@ + rest);
                                },
                                None => {
                                    assert(substituted(tail, vars@) is None);
                                },
                            }
                        }
                        i = k + 1;
                    } else {
                        let name = content.as_str().substring_char(i + 2, k).to_owned();
                        proof {
                            assert(name@ =~= tail.subrange(2, k - i as int)) by {
                                assert(name@ =~= whole.subrange(i as int + 2, k as int));
                            }
                        }
                        match lookup_value(vars, &name) {
                            Some(value) => {
                                out.append(value.as_str());
                                proof {
                                    assert(tail.skip(k - i as int + 1) =~= whole.skip(
                                        k as int + 1,
                                    ));
                                    assert(out@ =~= out0 + value@);
                                    match substituted(whole.skip(k as int + 1), vars@) {
                                        Some(rest) => {
                                            assert(substituted(tail, vars@) == Some(
                                                value@ + rest,
                                            ));
                                            assert(out0 + (value@ + rest) =~= out@ + rest);
                                        },
                                        None => {
                                            assert(substituted(tail, vars@) is None);
                                        },
                                    }
                                }
                                i = k + 1;
                            },
                            None => {
                                proof {
                                    assert(substituted(tail, vars@) is None);
                                }
                                return Err(name);
                            },
                        }
                    }
                },
                None => {
                    // no closing brace after the opener: the rest of the
                    // text is kept as written
                    let rest = content.as_str().substring_char(i, n);
                    out.append(rest);
                    proof {
                        assert(rest@ =~= tail) by {
                            assert(rest@ =~= whole.subrange(i as int, n as int));
                            assert(whole.subrange(i as int, n as int) =~= whole.skip(i as int));
                        }
                        assert(substituted(tail, vars@) == Some(tail));
                        assert(out@ =~= out0 + tail);
                        assert(whole.skip(n as int).len() == 0);
                        assert(substituted(whole.skip(n as int), vars@) == Some(
                            Seq::<char>::empty(),
                        ));
                        assert(out@ + Seq::<char>::empty() =~= out@);
                    }
                    i = n;
                },
            }
        } else {
            crate::command::push_char(&mut out, c);
            proof {
                assert(tail.drop_first() =~= whole.skip(i as int + 1));
                assert(out@ =~= out0 + seq![c]);
                match substituted(whole.skip(i as int + 1), vars@) {
                    Some(rest) => {
                        assert(substituted(tail, vars@) == Some(seq![c] + rest));
                        assert(out0 + (seq![c] + rest) =~= out@ + rest);
                    },
                    None => {
                        assert(substituted(tail, vars@) is None);
                    },
                }
            }
            i = i + 1;
        }
    }
    proof {
        assert(whole.skip(n as int).len() == 0);
        assert(substituted(whole.skip(n as int), vars@) == Some(Seq::<char>::empty()));
        assert(out@ + Seq::<char>::empty() =~= out@);
    }
    Ok(out)
}

/// Helper for carrying a found closing brace from the whole text into its
/// tail: the brace and the brace-free stretch before it pin the result.
proof fn lemma_find_close_exact(content: Seq<char>, from: int, k: int)
    requires
        0 <= from <= k < content.len(),
        content[k] == '}',
        forall|t: int| from <= t < k ==> content[t] != '}',
    ensures
        find_close(content, from) == Some(k),
    decreases k - from,
{
    if from < k {
        lemma_find_close_exact(content, from + 1, k);
    }
}

/// Helper: a brace-free stretch to the end means no closing brace is found.
proof fn lemma_find_close_none(content: Seq<char>, from: int)
    requires
        0 <= from,
        forall|t: int| from <= t < content.len() ==> content[t] != '}',
    ensures
        find_close(content, from) is None,
    decreases content.len() - from,
{
    if from < content.len() {
        lemma_find_close_none(content, from + 1);
    }
}

} // verus!
