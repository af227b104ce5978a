use vstd::prelude::*;

use crate::domain::errors::DomainError;
use crate::text::chars_of;

verus! {

/// Characters allowed in a tag: lower-case ASCII letters, digits and `-`.
pub open spec fn is_kebab_char(c: char) -> bool {
    ('a' <= c && c <= 'z') || ('0' <= c && c <= '9') || c == '-'
}

/// A tag in kebab case: non-empty, made only of kebab characters.
pub open spec fn is_kebab_tag(s: Seq<char>) -> bool {
    s.len() > 0 && forall|i: int| 0 <= i < s.len() ==> is_kebab_char(#[trigger] s[i])
}

/// Every tag of the list is in kebab case.
pub open spec fn tags_in_kebab_case(tags: Seq<String>) -> bool {
    forall|i: int| 0 <= i < tags.len() ==> is_kebab_tag(#[trigger] tags[i]@)
}

pub fn is_kebab_case(tag: &str) -> (r: bool)
    ensures
        r == is_kebab_tag(tag@),
{
    let cs = chars_of(tag);
    if cs.len() == 0 {
        return false;
    }
    let mut i: usize = 0;
    while i < cs.len()
        invariant
            i <= cs.len(),
            cs@ == tag@,
            forall|k: int| 0 <= k < i ==> is_kebab_char(#[trigger] cs@[k]),
        decreases cs.len() - i,
    {
        let c = cs[i];
        if !(('a' <= c && c <= 'z') || ('0' <= c && c <= '9') || c == '-') {
            return false;
        }
        i += 1;
    }
    true
}

/// Refuses the first tag that is not in kebab case, naming it.
pub fn validate_tags(tags: &[String]) -> (r: Result<(), DomainError>)
    ensures
        r is Ok <==> tags_in_kebab_case(tags@),
        r matches Err(e) ==> exists|i: int|
            0 <= i < tags@.len() && e == DomainError::InvalidTagFormat(tags@[i]) && !is_kebab_tag(
                tags@[i]@,
            ) && forall|k: int| 0 <= k < i ==> is_kebab_tag(#[trigger] tags@[k]@),
{
    let mut i: usize = 0;
    while i < tags.len()
        invariant
            i <= tags.len(),
            forall|k: int| 0 <= k < i ==> is_kebab_tag(#[trigger] tags@[k]@),
        decreases tags.len() - i,
    {
        if !is_kebab_case(tags[i].as_str()) {
            return Err(DomainError::InvalidTagFormat(tags[i].clone()));
        }
        i += 1;
    }
    Ok(())
}

} // verus!
