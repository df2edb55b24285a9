//! The sub-grammar of a single opening tag: splitting the raw tag text into
//! space-delimited parts (spaces inside double-quoted attribute values do not
//! split), picking the tag name, collecting attributes, and the fixed
//! void-element table.

use vstd::prelude::*;
use linked_hash_map::LinkedHashMap;
use crate::attrs::{lhm_entries, lhm_insert, lhm_new, remove_key};
use crate::node::{Element, SpecElement, UNIT_EQ, UNIT_QUOTE, UNIT_SPACE};
use crate::parser::ParseError;

verus! {

/// The views of a sequence of unit vectors.
pub open spec fn parts_views(parts: Seq<Vec<u16>>) -> Seq<Seq<u16>> {
    parts.map_values(|p: Vec<u16>| p@)
}

pub proof fn lemma_parts_views_push(parts: Seq<Vec<u16>>, p: Vec<u16>)
    ensures
        parts_views(parts.push(p)) == parts_views(parts).push(p@),
{
    assert(parts_views(parts.push(p)) =~= parts_views(parts).push(p@));
}

/// Splitting `s` at `sep`, from position `i` onward, with `cur` the pending
/// part and `in_str` whether an odd number of double quotes has been seen.
/// A separator inside a quoted stretch does not split; the final pending part
/// is kept only when it is non-empty.
pub open spec fn spec_split_from(s: Seq<u16>, sep: u16, i: int, in_str: bool, cur: Seq<u16>) -> Seq<Seq<u16>>
    decreases s.len() - i,
{
    if i < 0 || i >= s.len() {
        if cur.len() > 0 {
            seq![cur]
        } else {
            Seq::empty()
        }
    } else {
        let ch = s[i];
        let in_str2 = if ch == UNIT_QUOTE {
            !in_str
        } else {
            in_str
        };
        if ch == sep && !in_str2 {
            seq![cur] + spec_split_from(s, sep, i + 1, in_str2, Seq::empty())
        } else {
            spec_split_from(s, sep, i + 1, in_str2, cur.push(ch))
        }
    }
}

pub open spec fn spec_split_parts(s: Seq<u16>, sep: u16) -> Seq<Seq<u16>> {
    spec_split_from(s, sep, 0, false, Seq::empty())
}

/// Equality of two unit vectors.
pub fn units_eq(a: &Vec<u16>, b: &Vec<u16>) -> (r: bool)
    ensures
        r == (a@ == b@),
{
    if a.len() != b.len() {
        return false;
    }
    let mut i: usize = 0;
    while i < a.len()
        invariant
            i <= a.len(),
            a@.len() == b@.len(),
            forall|j: int| 0 <= j < i ==> a@[j] == b@[j],
        decreases a.len() - i,
    {
        if a[i] != b[i] {
            return false;
        }
        i += 1;
    }
    proof {
        assert(a@ =~= b@);
    }
    true
}

/// A copy of `s[from..to]`.
pub fn subvec(s: &Vec<u16>, from: usize, to: usize) -> (r: Vec<u16>)
    requires
        from <= to <= s@.len(),
    ensures
        r@ == s@.subrange(from as int, to as int),
{
    let mut r: Vec<u16> = Vec::new();
    let mut i: usize = from;
    while i < to
        invariant
            from <= i <= to <= s@.len(),
            r@ == s@.subrange(from as int, i as int),
        decreases to - i,
    {
        r.push(s[i]);
        proof {
            assert(r@ =~= s@.subrange(from as int, i + 1 as int));
        }
        i += 1;
    }
    r
}

/// The least position `k >= i` with `s[k] == x`, if any.
pub open spec fn spec_find(s: Seq<u16>, x: u16, i: int) -> Option<int>
    decreases s.len() - i,
{
    if i < 0 || i >= s.len() {
        None
    } else if s[i] == x {
        Some(i)
    } else {
        spec_find(s, x, i + 1)
    }
}

pub fn find_unit(s: &Vec<u16>, x: u16, from: usize) -> (r: Option<usize>)
    requires
        from <= s@.len(),
    ensures
        match r {
            Some(k) => from <= k < s@.len() && spec_find(s@, x, from as int) == Some(k as int),
            None => spec_find(s@, x, from as int) is None,
        },
{
    let mut i: usize = from;
    while i < s.len()
        invariant
            from <= i <= s@.len(),
            spec_find(s@, x, from as int) == spec_find(s@, x, i as int),
        decreases s.len() - i,
    {
        if s[i] == x {
            return Some(i);
        }
        i += 1;
    }
    None
}

/// A surrounding double quote is stripped from each end independently.
pub open spec fn spec_strip_quotes(v: Seq<u16>) -> Seq<u16> {
    let v1 = if v.len() > 0 && v[0] == UNIT_QUOTE {
        v.subrange(1, v.len() as int)
    } else {
        v
    };
    if v1.len() > 0 && v1[v1.len() - 1] == UNIT_QUOTE {
        v1.subrange(0, v1.len() - 1)
    } else {
        v1
    }
}

pub fn strip_quotes(v: &Vec<u16>) -> (r: Vec<u16>)
    ensures
        r@ == spec_strip_quotes(v@),
{
    let start: usize = if v.len() > 0 && v[0] == UNIT_QUOTE {
        1
    } else {
        0
    };
    let end: usize = if v.len() > start && v[v.len() - 1] == UNIT_QUOTE {
        v.len() - 1
    } else {
        v.len()
    };
    let r = subvec(v, start, end);
    proof {
        assert(r@ =~= spec_strip_quotes(v@));
    }
    r
}

// The fixed void-element table: area, base, br, wbr, col, hr, img, input,
// link, meta, param.
pub open spec fn is_void_name(n: Seq<u16>) -> bool {
    ||| n == seq![97u16, 114u16, 101u16, 97u16]  // area
    ||| n == seq![98u16, 97u16, 115u16, 101u16]  // base
    ||| n == seq![98u16, 114u16]  // br
    ||| n == seq![119u16, 98u16, 114u16]  // wbr
    ||| n == seq![99u16, 111u16, 108u16]  // col
    ||| n == seq![104u16, 114u16]  // hr
    ||| n == seq![105u16, 109u16, 103u16]  // img
    ||| n == seq![105u16, 110u16, 112u16, 117u16, 116u16]  // input
    ||| n == seq![108u16, 105u16, 110u16, 107u16]  // link
    ||| n == seq![109u16, 101u16, 116u16, 97u16]  // meta
    ||| n == seq![112u16, 97u16, 114u16, 97u16, 109u16]  // param
}

pub fn is_void_element_name(n: &Vec<u16>) -> (r: bool)
    ensures
        r == is_void_name(n@),
{
    let names: Vec<Vec<u16>> = vec![
        vec![97u16, 114u16, 101u16, 97u16],
        vec![98u16, 97u16, 115u16, 101u16],
        vec![98u16, 114u16],
        vec![119u16, 98u16, 114u16],
        vec![99u16, 111u16, 108u16],
        vec![104u16, 114u16],
        vec![105u16, 109u16, 103u16],
        vec![105u16, 110u16, 112u16, 117u16, 116u16],
        vec![108u16, 105u16, 110u16, 107u16],
        vec![109u16, 101u16, 116u16, 97u16],
        vec![112u16, 97u16, 114u16, 97u16, 109u16],
    ];
    let mut i: usize = 0;
    let mut found = false;
    while i < names.len()
        invariant
            i <= names@.len(),
            names@.len() == 11,
            names@[0]@ == seq![97u16, 114u16, 101u16, 97u16],
            names@[1]@ == seq![98u16, 97u16, 115u16, 101u16],
            names@[2]@ == seq![98u16, 114u16],
            names@[3]@ == seq![119u16, 98u16, 114u16],
            names@[4]@ == seq![99u16, 111u16, 108u16],
            names@[5]@ == seq![104u16, 114u16],
            names@[6]@ == seq![105u16, 109u16, 103u16],
            names@[7]@ == seq![105u16, 110u16, 112u16, 117u16, 116u16],
            names@[8]@ == seq![108u16, 105u16, 110u16, 107u16],
            names@[9]@ == seq![109u16, 101u16, 116u16, 97u16],
            names@[10]@ == seq![112u16, 97u16, 114u16, 97u16, 109u16],
            found == exists|j: int| 0 <= j < i && n@ == names@[j]@,
        decreases names.len() - i,
    {
        if units_eq(n, &names[i]) {
            proof {
                let gi = i as int;
                assert(n@ == names@[gi]@);
            }
            found = true;
        }
        i += 1;
    }
    proof {
        if found {
            let j = choose|j: int| 0 <= j < 11 && n@ == names@[j]@;
            assert(is_void_name(n@));
        }
        if is_void_name(n@) {
            if n@ == seq![97u16, 114u16, 101u16, 97u16] { assert(n@ == names@[0]@); }
            else if n@ == seq![98u16, 97u16, 115u16, 101u16] { assert(n@ == names@[1]@); }
            else if n@ == seq![98u16, 114u16] { assert(n@ == names@[2]@); }
            else if n@ == seq![119u16, 98u16, 114u16] { assert(n@ == names@[3]@); }
            else if n@ == seq![99u16, 111u16, 108u16] { assert(n@ == names@[4]@); }
            else if n@ == seq![104u16, 114u16] { assert(n@ == names@[5]@); }
            else if n@ == seq![105u16, 109u16, 103u16] { assert(n@ == names@[6]@); }
            else if n@ == seq![105u16, 110u16, 112u16, 117u16, 116u16] { assert(n@ == names@[7]@); }
            else if n@ == seq![108u16, 105u16, 110u16, 107u16] { assert(n@ == names@[8]@); }
            else if n@ == seq![109u16, 101u16, 116u16, 97u16] { assert(n@ == names@[9]@); }
            else { assert(n@ == names@[10]@); }
        }
    }
    found
}

/// One step of interpreting a tag part, folded left to right over the parts:
/// the first non-empty part without `=` names the tag; a part with `=` is
/// split at its first `=`, the value is unquoted, and the attribute is kept
/// only when both name and value are non-empty.
pub open spec fn spec_build_tag(
    parts: Seq<Seq<u16>>,
    i: int,
    name: Option<Seq<u16>>,
    attrs: Seq<(Seq<u16>, Seq<u16>)>,
) -> Option<(Seq<u16>, Seq<(Seq<u16>, Seq<u16>)>)>
    decreases parts.len() - i,
{
    if i < 0 || i >= parts.len() {
        match name {
            Some(n) => Some((n, attrs)),
            None => None,
        }
    } else {
        let p = parts[i];
        match spec_find(p, UNIT_EQ, 0) {
            None => {
                let name2 = if name is None && p.len() > 0 {
                    Some(p)
                } else {
                    name
                };
                spec_build_tag(parts, i + 1, name2, attrs)
            }
            Some(j) => {
                let an = p.subrange(0, j);
                let av = spec_strip_quotes(p.subrange(j + 1, p.len() as int));
                if an.len() > 0 && av.len() > 0 {
                    spec_build_tag(parts, i + 1, name, remove_key(attrs, an).push((an, av)))
                } else {
                    spec_build_tag(parts, i + 1, name, attrs)
                }
            }
        }
    }
}

/// The element described by the raw text of one opening tag (children still
/// empty): its name, attributes and void flag, or the fatal error when no
/// part names the tag.
pub open spec fn spec_create_tag(raw: Seq<u16>) -> Result<SpecElement, ParseError> {
    match spec_build_tag(spec_split_parts(raw, UNIT_SPACE), 0, None, Seq::empty()) {
        None => Err(ParseError::TagWithoutName),
        Some((n, attrs)) => Ok(
            SpecElement {
                tag_name: n,
                attributes: attrs,
                children: Seq::empty(),
                is_void_element: is_void_name(n),
            },
        ),
    }
}

pub open spec fn opt_units_view(o: Option<Vec<u16>>) -> Option<Seq<u16>> {
    match o {
        Some(v) => Some(v@),
        None => None,
    }
}

impl crate::parser::HtmlParser {
    /// Builds the element one opening tag describes; `Err` is the fatal
    /// "tag has no name" outcome.
    pub fn create_tag(&self, raw: &Vec<u16>) -> (r: Result<Element, ParseError>)
        ensures
            match spec_create_tag(raw@) {
                Ok(se) => r is Ok && crate::node::elem_view(r->Ok_0) == se,
                Err(e) => r == Result::<Element, ParseError>::Err(e),
            },
    {
        let parts = split_into_parts_by_separator(raw, UNIT_SPACE);
        let ghost pv = parts_views(parts@);
        let mut name: Option<Vec<u16>> = None;
        let mut attrs = lhm_new();
        let mut i: usize = 0;
        while i < parts.len()
            invariant
                i <= parts@.len(),
                pv == parts_views(parts@),
                spec_build_tag(pv, i as int, opt_units_view(name), lhm_entries(attrs))
                    == spec_build_tag(pv, 0, None, Seq::empty()),
            decreases parts.len() - i,
        {
            let p = &parts[i];
            assert(pv[i as int] == p@);
            match find_unit(p, UNIT_EQ, 0) {
                None => {
                    if name.is_none() && p.len() > 0 {
                        name = Some(p.clone());
                    }
                }
                Some(j) => {
                    let an = subvec(p, 0, j);
                    let av_raw = subvec(p, j + 1, p.len());
                    let av = strip_quotes(&av_raw);
                    if an.len() > 0 && av.len() > 0 {
                        lhm_insert(&mut attrs, an, av);
                    }
                }
            }
            i += 1;
        }
        match name {
            None => Err(ParseError::TagWithoutName),
            Some(n) => {
                let is_void = is_void_element_name(&n);
                Ok(Element {
                    tag_name: n,
                    attributes: attrs,
                    children: Vec::new(),
                    is_void_element: is_void,
                })
            }
        }
    }
}

/// Splits `raw` at `separator`, except inside double-quoted stretches; an
/// empty trailing part is discarded.
pub fn split_into_parts_by_separator(raw: &Vec<u16>, separator: u16) -> (r: Vec<Vec<u16>>)
    ensures
        parts_views(r@) == spec_split_parts(raw@, separator),
{
    let mut parts: Vec<Vec<u16>> = Vec::new();
    let mut cur: Vec<u16> = Vec::new();
    let mut in_str = false;
    let mut i: usize = 0;
    while i < raw.len()
        invariant
            i <= raw@.len(),
            spec_split_parts(raw@, separator)
                == parts_views(parts@) + spec_split_from(raw@, separator, i as int, in_str, cur@),
        decreases raw.len() - i,
    {
        let ch = raw[i];
        if ch == UNIT_QUOTE {
            in_str = !in_str;
        }
        if ch == separator && !in_str {
            proof {
                lemma_parts_views_push(parts@, cur);
            }
            parts.push(cur);
            cur = Vec::new();
        } else {
            cur.push(ch);
        }
        i += 1;
    }
    if cur.len() > 0 {
        proof {
            lemma_parts_views_push(parts@, cur);
        }
        parts.push(cur);
    }
    proof {
        assert(spec_split_parts(raw@, separator) =~= parts_views(parts@));
    }
    parts
}

} // verus!
