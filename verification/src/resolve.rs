//! The destination resolver: a user-supplied string becomes a routable
//! IPv4 address plus a display name. An IPv4 literal stands for itself and
//! is only reverse-looked-up for its name; anything else goes through a
//! forward DNS lookup, whose first IPv4 result is taken.

use vstd::prelude::*;
use crate::addr;
use crate::addr::{ipv4_value, is_ipv4_literal};
use crate::outcome::{resolve_result_view, FailureModel, ResolutionFailure, ResolvedTarget, TargetModel};

verus! {

/// Relies on dns_lookup::lookup_host: the addresses a forward DNS lookup
/// yields for `name`, each converted to its textual form. What comes back
/// depends on the resolver environment, so nothing is promised of it.
#[verifier::external_body]
fn lookup_host_texts(name: &str) -> (r: Result<Vec<String>, String>) {
    match dns_lookup::lookup_host(name) {
        Ok(addrs) => Ok(addrs.into_iter().map(|a| a.to_string()).collect()),
        Err(e) => Err(e.to_string()),
    }
}

/// Relies on dns_lookup::lookup_addr: the host name a reverse DNS lookup
/// associates with the address written in `addr_text`, if any. What comes
/// back depends on the resolver environment, so nothing is promised of it.
#[verifier::external_body]
fn reverse_name(addr_text: &str) -> (r: Option<String>) {
    match addr_text.parse() {
        Ok(ip) => dns_lookup::lookup_addr(&ip).ok(),
        Err(_) => None,
    }
}

/// The first entry of `texts` that spells an IPv4 literal, as an address
/// value; nothing when no entry does.
pub open spec fn first_v4(texts: Seq<Seq<char>>) -> Option<u32>
    decreases texts.len(),
{
    if texts.len() == 0 {
        None
    } else if is_ipv4_literal(texts[0]) {
        Some(ipv4_value(texts[0]))
    } else {
        first_v4(texts.drop_first())
    }
}

/// Picks the first usable IPv4 address among textual lookup results;
/// entries that are not IPv4 literals (an IPv6 address, say) are passed
/// over.
pub fn select_ipv4(texts: &Vec<String>) -> (r: Option<u32>)
    ensures
        r == first_v4(texts.deep_view()),
{
    let ghost dv = texts.deep_view();
    proof {
        assert(dv.skip(0) =~= dv);
    }
    let mut i: usize = 0;
    while i < texts.len()
        invariant
            i <= texts.len(),
            dv == texts.deep_view(),
            dv.len() == texts.len(),
            first_v4(dv) == first_v4(dv.skip(i as int)),
        decreases texts.len() - i,
    {
        let text = &texts[i];
        proof {
            assert(dv.skip(i as int).len() > 0);
            assert(dv.skip(i as int)[0] == dv[i as int]);
            assert(dv[i as int] == text@);
        }
        match addr::parse_ipv4(text.as_str()) {
            Some(v) => {
                proof {
                    assert(first_v4(dv.skip(i as int)) == Some(ipv4_value(text@)));
                }
                return Some(v);
            },
            None => {},
        }
        proof {
            assert(dv.skip(i as int).drop_first() =~= dv.skip(i as int + 1));
        }
        i += 1;
    }
    proof {
        assert(dv.skip(i as int).len() == 0);
    }
    None
}

/// The model of a forward-lookup outcome: the address texts it yielded, or
/// the text of the error it failed with.
pub open spec fn lookup_view(l: Result<Vec<String>, String>) -> Result<Seq<Seq<char>>, Seq<char>> {
    match l {
        Ok(texts) => Ok(texts.deep_view()),
        Err(e) => Err(e@),
    }
}

/// What the resolver decides for a destination that is not an IPv4
/// literal, once the forward-lookup outcome is known: the first IPv4
/// result under the input as display name, or a resolution failure naming
/// the input and the cause.
pub open spec fn resolve_lookup_model(input: Seq<char>, lookup: Result<Seq<Seq<char>>, Seq<char>>) -> Result<
    TargetModel,
    FailureModel,
> {
    match lookup {
        Ok(texts) => match first_v4(texts) {
            Some(v) => Ok(TargetModel { address: v, display_name: input }),
            None => Err(FailureModel { input: input, cause: "no usable IPv4 address"@ }),
        },
        Err(e) => Err(FailureModel { input: input, cause: e }),
    }
}

/// Resolves a destination that is not an IPv4 literal from the outcome of
/// its forward lookup.
pub fn resolve_from_lookup(input: &str, lookup: Result<Vec<String>, String>) -> (r: Result<
    ResolvedTarget,
    ResolutionFailure,
>)
    ensures
        resolve_result_view(r) == resolve_lookup_model(input@, lookup_view(lookup)),
{
    match lookup {
        Ok(texts) => match select_ipv4(&texts) {
            Some(v) => Ok(ResolvedTarget { address: v, display_name: input.to_owned() }),
            None => Err(
                ResolutionFailure {
                    input: input.to_owned(),
                    cause: "no usable IPv4 address".to_owned(),
                },
            ),
        },
        Err(e) => Err(ResolutionFailure { input: input.to_owned(), cause: e }),
    }
}

/// Resolves a destination that is an IPv4 literal: the spelled address,
/// under the reverse-looked-up name where one was found and the literal
/// itself where none was.
pub fn resolve_literal(input: &str, reverse: Option<String>) -> (t: ResolvedTarget)
    requires
        is_ipv4_literal(input@),
    ensures
        t.address == ipv4_value(input@),
        t@.display_name == match reverse {
            Some(name) => name@,
            None => input@,
        },
{
    let address = match addr::parse_ipv4(input) {
        Some(v) => v,
        None => unreached(),
    };
    match reverse {
        Some(name) => ResolvedTarget { address, display_name: name },
        None => ResolvedTarget { address, display_name: input.to_owned() },
    }
}

/// Turns a user-supplied destination into a routable IPv4 address and a
/// display name. A literal is used as it stands, its reverse lookup only
/// naming it, and a failure of that lookup falling back to the literal;
/// any other input is forward-looked-up, fatally failing the probe when no
/// IPv4 address comes back.
pub fn resolve(input: &str) -> (r: Result<ResolvedTarget, ResolutionFailure>)
    ensures
        is_ipv4_literal(input@) ==> (r matches Ok(t) && t.address == ipv4_value(input@)),
        r matches Err(f) ==> !is_ipv4_literal(input@) && f@.input == input@,
        r matches Ok(t) ==> (!is_ipv4_literal(input@) ==> t@.display_name == input@),
{
    match addr::parse_ipv4(input) {
        Some(_) => {
            let name = reverse_name(input);
            Ok(resolve_literal(input, name))
        },
        None => resolve_from_lookup(input, lookup_host_texts(input)),
    }
}

/// The selector finds an address exactly when some lookup text spells an
/// IPv4 literal: a lookup that yielded none (an IPv6-only resolution, say)
/// leaves the resolver nothing to use.
pub proof fn lemma_first_v4_finds(texts: Seq<Seq<char>>)
    ensures
        first_v4(texts) is None <==> (forall|i: int|
            0 <= i < texts.len() ==> !is_ipv4_literal(#[trigger] texts[i])),
    decreases texts.len(),
{
    if texts.len() == 0 {
    } else if is_ipv4_literal(texts[0]) {
    } else {
        lemma_first_v4_finds(texts.drop_first());
        if first_v4(texts) is None {
            assert forall|i: int| 0 <= i < texts.len() implies !is_ipv4_literal(
                #[trigger] texts[i],
            ) by {
                if i > 0 {
                    assert(texts.drop_first()[i - 1] == texts[i]);
                    assert(!is_ipv4_literal(texts.drop_first()[i - 1]));
                }
            }
        } else {
            assert(first_v4(texts.drop_first()) is Some);
            assert(exists|j: int|
                0 <= j < texts.drop_first().len() && is_ipv4_literal(
                    #[trigger] texts.drop_first()[j],
                ));
            let j = choose|j: int|
                0 <= j < texts.drop_first().len() && is_ipv4_literal(
                    #[trigger] texts.drop_first()[j],
                );
            assert(texts.drop_first()[j] == texts[j + 1]);
            assert(is_ipv4_literal(texts[j + 1]));
        }
    }
}

} // verus!
