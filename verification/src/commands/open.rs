//! `doclib open`: which program opens a document.

use vstd::prelude::*;

use crate::config::{openers_distinct, opt_view, Config};
use crate::text::{blank, is_blank, str_equal};

verus! {

/// The command configured for an extension: the first entry for it.
pub open spec fn configured_opener(openers: Seq<(String, String)>, ext: Seq<char>) -> Option<
    Seq<char>,
>
    decreases openers.len(),
{
    if openers.len() == 0 {
        None
    } else {
        match configured_opener(openers.drop_last(), ext) {
            Some(c) => Some(c),
            None => if openers.last().0@ == ext {
                Some(openers.last().1@)
            } else {
                None
            },
        }
    }
}

/// The opener's command: the one configured for the extension, else
/// `$DOCLIB_OPENER` when it is set and not blank, else `xdg-open`.
pub open spec fn opener_choice(
    openers: Seq<(String, String)>,
    ext: Seq<char>,
    env: Option<Seq<char>>,
) -> Seq<char> {
    match configured_opener(openers, ext) {
        Some(c) => c,
        None => match env {
            Some(e) if !is_blank(e) => e,
            _ => "xdg-open"@,
        },
    }
}

/// The command that opens a file with extension `ext`, given the value of
/// `$DOCLIB_OPENER`. With one entry per extension, the entry for `ext`
/// is the one used.
pub fn opener_for(cfg: &Config, ext: &str, env_opener: Option<&str>) -> (r: String)
    ensures
        r@ == opener_choice(cfg.openers@, ext@, opt_view(env_opener)),
        openers_distinct(cfg.openers@) ==> forall|k: int|
            0 <= k < cfg.openers@.len() && (#[trigger] cfg.openers@[k]).0@ == ext@ ==> r@
                == cfg.openers@[k].1@,
{
    let ghost all = cfg.openers@;
    proof {
        assert forall|k: int|
            openers_distinct(all) && 0 <= k < all.len() && (#[trigger] all[k]).0@
                == ext@ implies configured_opener(all, ext@) == Some(all[k].1@) by {
            assert forall|i: int| 0 <= i < all.take(k).len() implies (#[trigger] all.take(k)[i]).0@
                != ext@ by {
                assert(all.take(k)[i] == all[i]);
            }
            lemma_configured_absent(all.take(k), ext@);
            assert(all.take(k + 1 - 1) =~= all.take(k));
            lemma_configured_prefix(all, k + 1, ext@);
        }
    }
    let mut i: usize = 0;
    while i < cfg.openers.len()
        invariant
            i <= all.len(),
            all == cfg.openers@,
            configured_opener(all.take(i as int), ext@) is None,
        decreases cfg.openers.len() - i,
    {
        assert(all.take(i as int + 1).drop_last() =~= all.take(i as int));
        if str_equal(cfg.openers[i].0.as_str(), ext) {
            proof {
                lemma_configured_prefix(all, i as int + 1, ext@);
            }
            return cfg.openers[i].1.clone();
        }
        i += 1;
    }
    assert(all.take(i as int) =~= all);
    if let Some(command) = env_opener {
        if !blank(command) {
            return command.to_owned();
        }
    }
    String::from_str("xdg-open")
}

proof fn lemma_configured_absent(openers: Seq<(String, String)>, ext: Seq<char>)
    requires
        forall|i: int| 0 <= i < openers.len() ==> (#[trigger] openers[i]).0@ != ext,
    ensures
        configured_opener(openers, ext) is None,
    decreases openers.len(),
{
    if openers.len() > 0 {
        assert forall|i: int| 0 <= i < openers.drop_last().len() implies (
        #[trigger] openers.drop_last()[i]).0@ != ext by {
            assert(openers.drop_last()[i] == openers[i]);
        }
        lemma_configured_absent(openers.drop_last(), ext);
        assert(openers.last() == openers[openers.len() - 1]);
    }
}

proof fn lemma_configured_prefix(openers: Seq<(String, String)>, n: int, ext: Seq<char>)
    requires
        0 < n <= openers.len(),
        configured_opener(openers.take(n - 1), ext) is None,
        openers[n - 1].0@ == ext,
    ensures
        configured_opener(openers, ext) == Some(openers[n - 1].1@),
    decreases openers.len(),
{
    assert(openers.take(n).drop_last() =~= openers.take(n - 1));
    if n < openers.len() {
        assert(openers.drop_last().take(n - 1) =~= openers.take(n - 1));
        lemma_configured_prefix(openers.drop_last(), n, ext);
    } else {
        assert(openers.take(n) =~= openers);
    }
}

} // verus!
