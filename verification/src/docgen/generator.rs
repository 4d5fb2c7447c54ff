use crate::docgen::diataxis::DocCategory;
use vstd::prelude::*;
use vstd::string::StringExecFns;

verus! {

/// A sketch of the shape the model must answer in for the given category.
pub open spec fn spec_structure_hint(category: DocCategory) -> Seq<char> {
    match category {
        DocCategory::Tutorial => "{ \"title\": \"Tutorial Title\", \"introduction\": \"...\", \"prerequisites\": \"...\", \"steps\": [ { \"number\": 1, \"title\": \"Step 1\", \"content\": \"...\" } ], \"conclusion\": \"...\" }"@,
        DocCategory::HowTo => "{ \"title\": \"How to ...\", \"problem\": \"...\", \"solution\": \"...\", \"steps\": [\"Step 1\", \"Step 2\"], \"discussion\": \"...\" }"@,
        DocCategory::Explanation => "{ \"title\": \"Topic\", \"overview\": \"...\", \"concepts\": \"...\", \"architecture\": \"...\", \"design_decisions\": \"...\" }"@,
        DocCategory::Reference => "{ \"title\": \"Reference\", \"description\": \"...\", \"usage\": \"...\", \"api\": \"...\", \"examples\": \"...\" }"@,
    }
}

/// The prompt handed to the agent for one document: the category, the topic,
/// the repository context, and the expected answer shape.
pub open spec fn spec_build_prompt(
    category: DocCategory,
    topic: Seq<char>,
    context: Seq<char>,
) -> Seq<char> {
    "You are a technical documentation writer. Generate a "@ + category.spec_str()
        + " document for \""@ + topic + "\".\n\nRepository Context:\n"@ + context
        + "\n\nOutput Format:\nYou must return a valid JSON object that matches the structure required for the "@
        + category.spec_str()
        + " template.\nDo not include any markdown formatting around the output. Just the raw JSON.\n\nTemplate Structure:\n"@
        + spec_structure_hint(category)
        + "\n\nGuidelines:\n- Clear and concise language\n- Appropriate technical depth\n- Code examples where relevant\n"@
}

/// A sketch of the shape the model must answer in for the given category.
pub fn get_structure_hint(category: DocCategory) -> (r: &'static str)
    ensures
        r@ == spec_structure_hint(category),
{
    match category {
        DocCategory::Tutorial => "{ \"title\": \"Tutorial Title\", \"introduction\": \"...\", \"prerequisites\": \"...\", \"steps\": [ { \"number\": 1, \"title\": \"Step 1\", \"content\": \"...\" } ], \"conclusion\": \"...\" }",
        DocCategory::HowTo => "{ \"title\": \"How to ...\", \"problem\": \"...\", \"solution\": \"...\", \"steps\": [\"Step 1\", \"Step 2\"], \"discussion\": \"...\" }",
        DocCategory::Explanation => "{ \"title\": \"Topic\", \"overview\": \"...\", \"concepts\": \"...\", \"architecture\": \"...\", \"design_decisions\": \"...\" }",
        DocCategory::Reference => "{ \"title\": \"Reference\", \"description\": \"...\", \"usage\": \"...\", \"api\": \"...\", \"examples\": \"...\" }",
    }
}

/// The prompt handed to the agent for one document.
pub fn build_prompt(category: DocCategory, topic: &str, context: &str) -> (r: String)
    ensures
        r@ == spec_build_prompt(category, topic@, context@),
{
    let mut p = "You are a technical documentation writer. Generate a ".to_owned();
    p.append(category.as_str());
    p.append(" document for \"");
    p.append(topic);
    p.append("\".\n\nRepository Context:\n");
    p.append(context);
    p.append(
        "\n\nOutput Format:\nYou must return a valid JSON object that matches the structure required for the ",
    );
    p.append(category.as_str());
    p.append(
        " template.\nDo not include any markdown formatting around the output. Just the raw JSON.\n\nTemplate Structure:\n",
    );
    p.append(get_structure_hint(category));
    p.append(
        "\n\nGuidelines:\n- Clear and concise language\n- Appropriate technical depth\n- Code examples where relevant\n",
    );
    proof {
        assert(p@ =~= spec_build_prompt(category, topic@, context@));
    }
    p
}

/// Where a fenced answer's body starts: after a fence and an encoding tag, if
/// the text begins with them.
pub open spec fn spec_strip_fences(t: Seq<char>) -> Seq<char> {
    if t.len() >= 7 && t.subrange(0, 7) == "```json"@ {
        strip_closing(t.subrange(7, t.len() as int))
    } else if t.len() >= 3 && t.subrange(0, 3) == "```"@ {
        strip_closing(t.subrange(3, t.len() as int))
    } else {
        t
    }
}

/// The text with one trailing fence removed, if it ends in one.
pub open spec fn strip_closing(t: Seq<char>) -> Seq<char> {
    if t.len() >= 3 && t.subrange(t.len() - 3, t.len() as int) == "```"@ {
        t.subrange(0, t.len() - 3)
    } else {
        t
    }
}

/// What cleaning a model answer yields: surrounding whitespace dropped, then
/// any fenced-code wrapping dropped, then whitespace again.
pub open spec fn spec_clean_response(t: Seq<char>) -> Seq<char> {
    sp_trim_ws(spec_strip_fences(sp_trim_ws(t)))
}

/// The text with surrounding whitespace removed.
pub open spec fn sp_trim_ws(t: Seq<char>) -> Seq<char> {
    let a = sp_skip_ws(t, 0);
    if a == t.len() {
        Seq::empty()
    } else {
        t.subrange(a, sp_rskip_ws(t, t.len() as int))
    }
}

/// The first position at or after `i` holding no whitespace.
pub open spec fn sp_skip_ws(t: Seq<char>, i: int) -> int
    decreases t.len() - i,
{
    if 0 <= i < t.len() && crate::json::is_ws(t[i]) {
        sp_skip_ws(t, i + 1)
    } else {
        i
    }
}

/// The end of the text once trailing whitespace is dropped, scanning back from
/// `h`.
pub open spec fn sp_rskip_ws(t: Seq<char>, h: int) -> int
    decreases h,
{
    if 0 < h <= t.len() && crate::json::is_ws(t[h - 1]) {
        sp_rskip_ws(t, h - 1)
    } else {
        h
    }
}

/// Scanning whitespace never moves backwards and never passes the text's end.
proof fn lemma_skip_ws_bounds(t: Seq<char>, i: int)
    requires
        0 <= i,
    ensures
        sp_skip_ws(t, i) >= i,
        i <= t.len() ==> sp_skip_ws(t, i) <= t.len(),
    decreases t.len() - i,
{
    if i < t.len() && crate::json::is_ws(t[i]) {
        lemma_skip_ws_bounds(t, i + 1);
    }
}

/// The position right after the leading whitespace holds none.
proof fn lemma_skip_ws_stops(t: Seq<char>, i: int, a: int)
    requires
        0 <= i <= a,
        a == sp_skip_ws(t, i),
        a < t.len(),
    ensures
        !crate::json::is_ws(t[a]),
    decreases a - i,
{
    if i < t.len() && crate::json::is_ws(t[i]) {
        lemma_skip_ws_bounds(t, i + 1);
        lemma_skip_ws_stops(t, i + 1, a);
    }
}

/// Dropping trailing whitespace never passes the leading non-whitespace
/// position.
proof fn lemma_rskip_ws_bounds(t: Seq<char>, h: int, a: int)
    requires
        0 <= a,
        a == sp_skip_ws(t, 0),
        a < t.len(),
        a < h <= t.len(),
    ensures
        a < sp_rskip_ws(t, h) <= h,
    decreases h,
{
    if crate::json::is_ws(t[h - 1]) {
        if h - 1 == a {
            lemma_skip_ws_stops(t, 0, a);
        } else {
            lemma_rskip_ws_bounds(t, h - 1, a);
        }
    }
}

/// The text with surrounding whitespace removed.
fn trim_ws(t: &Vec<char>) -> (r: Vec<char>)
    ensures
        r@ == sp_trim_ws(t@),
{
    let mut a: usize = 0;
    while a < t.len() && (t[a] == ' ' || t[a] == '\t' || t[a] == '\n' || t[a] == '\r')
        invariant
            a <= t@.len(),
            sp_skip_ws(t@, 0) == sp_skip_ws(t@, a as int),
        decreases t@.len() - a,
    {
        a = a + 1;
    }
    if a == t.len() {
        return Vec::new();
    }
    let mut h = t.len();
    while h > 0 && (t[h - 1] == ' ' || t[h - 1] == '\t' || t[h - 1] == '\n' || t[h - 1] == '\r')
        invariant
            h <= t@.len(),
            sp_rskip_ws(t@, t@.len() as int) == sp_rskip_ws(t@, h as int),
        decreases h,
    {
        h = h - 1;
    }
    proof {
        lemma_rskip_ws_bounds(t@, t@.len() as int, a as int);
        assert(sp_rskip_ws(t@, h as int) == h as int);
    }
    let mut out: Vec<char> = Vec::new();
    let mut k = a;
    while k < h
        invariant
            a <= k <= h <= t@.len(),
            out@ =~= t@.subrange(a as int, k as int),
        decreases h - k,
    {
        out.push(t[k]);
        proof {
            assert(out@ =~= t@.subrange(a as int, k + 1));
        }
        k = k + 1;
    }
    proof {
        assert(out@ =~= sp_trim_ws(t@));
    }
    out
}

/// The slice of the given window, copied out.
fn window(t: &Vec<char>, lo: usize, hi: usize) -> (r: Vec<char>)
    requires
        lo <= hi <= t@.len(),
    ensures
        r@ == t@.subrange(lo as int, hi as int),
{
    let mut out: Vec<char> = Vec::new();
    let mut k = lo;
    while k < hi
        invariant
            lo <= k <= hi <= t@.len(),
            out@ =~= t@.subrange(lo as int, k as int),
        decreases hi - k,
    {
        out.push(t[k]);
        proof {
            assert(out@ =~= t@.subrange(lo as int, k + 1));
        }
        k = k + 1;
    }
    proof {
        assert(out@ =~= t@.subrange(lo as int, hi as int));
    }
    out
}

/// The text with one trailing fence removed, if it ends in one.
fn strip_closing_exec(t: &Vec<char>) -> (r: Vec<char>)
    ensures
        r@ == strip_closing(t@),
{
    proof {
        reveal_strlit("```");
    }
    if t.len() >= 3 && t[t.len() - 3] == '`' && t[t.len() - 2] == '`' && t[t.len() - 1] == '`' {
        proof {
            assert(t@.subrange(t@.len() - 3, t@.len() as int) =~= "```"@);
        }
        window(t, 0, t.len() - 3)
    } else {
        proof {
            if t@.len() >= 3 && t@.subrange(t@.len() - 3, t@.len() as int) == "```"@ {
                assert(t@.subrange(t@.len() - 3, t@.len() as int)[0] == '`');
                assert(t@.subrange(t@.len() - 3, t@.len() as int)[1] == '`');
                assert(t@.subrange(t@.len() - 3, t@.len() as int)[2] == '`');
            }
        }
        window(t, 0, t.len())
    }
}

/// Cleans a model answer: surrounding whitespace dropped, then any fenced-code
/// wrapping dropped, then whitespace again. A model asked for a raw structured
/// object sometimes wraps it in a fence anyway; this undoes that.
pub fn clean_json_response(response: &str) -> (r: String)
    ensures
        r@ == spec_clean_response(response@),
{
    proof {
        reveal_strlit("```json");
        reveal_strlit("```");
    }
    let cs = crate::text::chars_of(response);
    let t = trim_ws(&cs);
    let stripped: Vec<char> = if t.len() >= 7 && t[0] == '`' && t[1] == '`' && t[2] == '`' && t[3]
        == 'j' && t[4] == 's' && t[5] == 'o' && t[6] == 'n' {
        proof {
            assert(t@.subrange(0, 7) =~= "```json"@);
        }
        let stripped = strip_closing_exec(&window(&t, 7, t.len()));
        proof {
            assert(stripped@ == spec_strip_fences(t@));
        }
        stripped
    } else if t.len() >= 3 && t[0] == '`' && t[1] == '`' && t[2] == '`' {
        proof {
            assert(t@.subrange(0, 3) =~= "```"@);
            if t@.len() >= 7 && t@.subrange(0, 7) == "```json"@ {
                assert(t@.subrange(0, 7)[3] == 'j');
                assert(t@.subrange(0, 7)[4] == 's');
                assert(t@.subrange(0, 7)[5] == 'o');
                assert(t@.subrange(0, 7)[6] == 'n');
            }
        }
        let stripped = strip_closing_exec(&window(&t, 3, t.len()));
        proof {
            assert(stripped@ == spec_strip_fences(t@));
        }
        stripped
    } else {
        proof {
            if t@.len() >= 7 && t@.subrange(0, 7) == "```json"@ {
                assert(t@.subrange(0, 7)[0] == '`');
                assert(t@.subrange(0, 7)[1] == '`');
                assert(t@.subrange(0, 7)[2] == '`');
            }
            if t@.len() >= 3 && t@.subrange(0, 3) == "```"@ {
                assert(t@.subrange(0, 3)[0] == '`');
                assert(t@.subrange(0, 3)[1] == '`');
                assert(t@.subrange(0, 3)[2] == '`');
            }
        }
        let stripped = window(&t, 0, t.len());
        proof {
            assert(stripped@ =~= t@);
            assert(stripped@ == spec_strip_fences(t@));
        }
        stripped
    };
    let cleaned = trim_ws(&stripped);
    crate::text::string_of(cleaned.as_slice())
}

} // verus!
