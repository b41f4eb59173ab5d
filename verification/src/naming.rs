//! File names for lists of named assets, where a name may repeat.

use vstd::prelude::*;
use vstd::string::*;

use crate::numfmt::{dec, digits};
use crate::text::push_char;

verus! {

/// Whether item `i` shares its name with the item before it or the one after it.
pub open spec fn repeated(ns: Seq<Seq<char>>, i: int) -> bool {
    (i > 0 && ns[i] == ns[i - 1]) || (i + 1 < ns.len() && ns[i] == ns[i + 1]) || (i == 0 && ns[0].len() == 0)
}

/// The running number after items `0..i`: it counts up at each repeated
/// name and starts again after a name that is not repeated.
pub open spec fn run_after(ns: Seq<Seq<char>>, i: int) -> nat
    decreases i,
{
    if i <= 0 {
        0
    } else if repeated(ns, i - 1) {
        run_after(ns, i - 1) + 1
    } else {
        0
    }
}

/// The file name of item `i`: its name, with the running number after it
/// in brackets when the name is repeated.
pub open spec fn save_name(ns: Seq<Seq<char>>, i: int) -> Seq<char> {
    if repeated(ns, i) {
        ns[i] + " ("@ + digits(run_after(ns, i + 1), 10) + ")"@
    } else {
        ns[i]
    }
}

/// The file names of a list of named items: names that repeat next to each
/// other get a running number.
pub fn save_names(names: &[&str]) -> (r: Vec<String>)
    ensures
        r@.len() == names@.len(),
        forall|i: int|
            0 <= i < names@.len() ==> (#[trigger] r@[i])@ == save_name(
                names@.map_values(|s: &str| s@),
                i,
            ),
{
    let ghost ns = names@.map_values(|s: &str| s@);
    let mut out: Vec<String> = Vec::new();
    let mut run: u64 = 0;
    let mut i: usize = 0;
    while i < names.len()
        invariant
            0 <= i <= names@.len(),
            ns == names@.map_values(|s: &str| s@),
            out@.len() == i,
            run == run_after(ns, i as int),
            run <= i,
            forall|k: int| 0 <= k < i ==> (#[trigger] out@[k])@ == save_name(ns, k),
        decreases names@.len() - i,
    {
        let name = names[i];
        let same_prev = if i > 0 {
            crate::text::bytes_eq(name.as_bytes(), names[i - 1].as_bytes())
        } else {
            name.is_empty()
        };
        let same_next = i + 1 < names.len() && crate::text::bytes_eq(name.as_bytes(), names[i + 1].as_bytes());
        proof {
            if i > 0 {
                assert(ns[i as int] == names@[i as int]@);
                assert(ns[i - 1] == names@[i - 1]@);
                if names@[i as int].spec_bytes() == names@[i - 1].spec_bytes() {
                    vstd::utf8::encode_utf8_decode_utf8(names@[i as int]@);
                    vstd::utf8::encode_utf8_decode_utf8(names@[i - 1]@);
                }
            }
            if i + 1 < names@.len() {
                assert(ns[i + 1] == names@[i + 1]@);
                if names@[i as int].spec_bytes() == names@[i + 1].spec_bytes() {
                    vstd::utf8::encode_utf8_decode_utf8(names@[i as int]@);
                    vstd::utf8::encode_utf8_decode_utf8(names@[i + 1]@);
                }
            }
        }
        assert((same_prev || same_next) == repeated(ns, i as int));
        assert(run_after(ns, i + 1) == if repeated(ns, i as int) {
            run_after(ns, i as int) + 1
        } else {
            0
        });
        if same_prev || same_next {
            run = run + 1;
            let mut s = String::from_str(name);
            s.append(" (");
            let n = dec(run);
            s.append(n.as_str());
            s.append(")");
            out.push(s);
        } else {
            run = 0;
            out.push(String::from_str(name));
        }
        i = i + 1;
    }
    out
}

// ---------------------------------------------------------------------------
// The file name an asset is written under

/// The place of the last `.` in `n` (-1 where there is none).
pub open spec fn last_dot(n: Seq<char>) -> int
    decreases n.len(),
{
    if n.len() == 0 {
        -1
    } else if n.last() == '.' {
        n.len() - 1
    } else {
        last_dot(n.drop_last())
    }
}

/// The length of the stem of the file name `n`: up to its last `.`, unless
/// that dot is its first character.
pub open spec fn stem_len(n: Seq<char>) -> int {
    if last_dot(n) <= 0 {
        n.len() as int
    } else {
        last_dot(n)
    }
}

/// `e` without its leading dots.
pub open spec fn trim_dots(e: Seq<char>) -> Seq<char>
    decreases e.len(),
{
    if e.len() > 0 && e[0] == '.' {
        trim_dots(e.drop_first())
    } else {
        e
    }
}

/// The file name of asset `n` with extension `e`: the name's own extension,
/// after its last dot, is replaced by `e` without its leading dots; an empty
/// extension leaves no dot.
pub open spec fn output_name(n: Seq<char>, e: Seq<char>) -> Seq<char> {
    let t = trim_dots(e);
    n.take(stem_len(n)) + if t.len() == 0 {
        Seq::empty()
    } else {
        seq!['.'] + t
    }
}

/// A name that is one ordinary path component: not empty, not `.` or `..`,
/// without a `/`.
pub open spec fn single_component(n: Seq<char>) -> bool {
    &&& n.len() > 0
    &&& n != seq!['.']
    &&& n != seq!['.', '.']
    &&& forall|i: int| 0 <= i < n.len() ==> n[i] != '/'
}

proof fn lemma_trim_step(e: Seq<char>, j: int)
    requires
        0 <= j < e.len(),
        e[j] == '.',
    ensures
        trim_dots(e.skip(j)) == trim_dots(e.skip(j + 1)),
{
    assert(e.skip(j).drop_first() =~= e.skip(j + 1));
}

/// The file name that asset `name` is written under with extension `ext`.
pub fn output_file_name(name: &str, ext: &str) -> (s: String)
    requires
        single_component(name@),
    ensures
        s@ == output_name(name@, ext@),
{
    let n = name.unicode_len();
    let mut dot: usize = 0;
    let mut has_dot = false;
    let mut k: usize = 0;
    while k < n
        invariant
            n == name@.len(),
            k <= n,
            has_dot == (last_dot(name@.take(k as int)) >= 0),
            has_dot ==> dot == last_dot(name@.take(k as int)),
            last_dot(name@.take(k as int)) < k,
        decreases n - k,
    {
        assert(name@.take(k + 1).drop_last() =~= name@.take(k as int));
        assert(name@.take(k + 1).last() == name@[k as int]);
        if name.get_char(k) == '.' {
            dot = k;
            has_dot = true;
        }
        k = k + 1;
    }
    assert(name@.take(n as int) =~= name@);
    let stem: usize = if !has_dot || dot == 0 {
        n
    } else {
        dot
    };
    assert(stem == stem_len(name@));
    let mut s = String::new();
    let mut i: usize = 0;
    while i < stem
        invariant
            stem <= n,
            n == name@.len(),
            i <= stem,
            s@ == name@.take(i as int),
        decreases stem - i,
    {
        push_char(&mut s, name.get_char(i));
        assert(name@.take(i + 1) =~= name@.take(i as int).push(name@[i as int]));
        i = i + 1;
    }
    let m = ext.unicode_len();
    let mut j: usize = 0;
    assert(ext@.skip(0) =~= ext@);
    while j < m && ext.get_char(j) == '.'
        invariant
            m == ext@.len(),
            j <= m,
            trim_dots(ext@) == trim_dots(ext@.skip(j as int)),
        decreases m - j,
    {
        proof {
            lemma_trim_step(ext@, j as int);
        }
        j = j + 1;
    }
    let ghost t = ext@.skip(j as int);
    assert(trim_dots(t) == t);
    if j < m {
        push_char(&mut s, '.');
        let ghost base = s@;
        let mut q: usize = j;
        while q < m
            invariant
                m == ext@.len(),
                j <= q <= m,
                s@ == base + ext@.subrange(j as int, q as int),
            decreases m - q,
        {
            push_char(&mut s, ext.get_char(q));
            assert(ext@.subrange(j as int, q + 1) =~= ext@.subrange(j as int, q as int).push(ext@[q as int]));
            q = q + 1;
        }
        assert(ext@.subrange(j as int, m as int) =~= t);
        assert(s@ =~= output_name(name@, ext@));
    } else {
        assert(t.len() == 0);
        assert(s@ =~= output_name(name@, ext@));
    }
    s
}

} // verus!
