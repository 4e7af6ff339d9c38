use crate::error::NlpError;
use crate::language::{code_of, is_supported, resolve_pair};
use crate::registry::{acquire_step, Claim, ResourceKey, ResourceRegistry};
use vstd::prelude::*;

verus! {

/// Starts a translation request: resolves both language codes, then asks
/// the registry for the engine of that direction. An unsupported code is
/// rejected before the registry is touched; a direction with no registered
/// builder is `ResourceUnavailable`.
pub fn acquire_translation<T>(registry: &mut ResourceRegistry<T>, from: &str, to: &str) -> (r:
    Result<(ResourceKey, Claim<T>), NlpError>)
    requires
        old(registry).wf(),
    ensures
        final(registry).wf(),
        !is_supported(from@) || !is_supported(to@) ==> r == Err::<(ResourceKey, Claim<T>), NlpError>(
            NlpError::UnsupportedLanguage,
        ) && final(registry)@ == old(registry)@,
        is_supported(from@) && is_supported(to@) ==> exists|s, t|
            #[trigger] code_of(s) == from@ && #[trigger] code_of(t) == to@ && final(registry)@
                == acquire_step(old(registry)@, ResourceKey::Translation(s, t)).0 && r == match acquire_step(old(registry)@, ResourceKey::Translation(s, t)).1 {
                Some(c) => Ok::<(ResourceKey, Claim<T>), NlpError>((ResourceKey::Translation(s, t), c)),
                None => Err(NlpError::ResourceUnavailable),
            },
{
    let (source, target) = resolve_pair(from, to)?;
    let key = ResourceKey::Translation(source, target);
    let claim = registry.acquire(key)?;
    Ok((key, claim))
}

} // verus!
