use vstd::prelude::*;

verus! {

/// The value a setting resolves to from its candidates in precedence
/// order — the primary key's value first, then each deprecated alias —
/// namely the first candidate that is present.
pub open spec fn spec_first_present(vals: Seq<Option<String>>) -> Option<String>
    decreases vals.len(),
{
    if vals.len() == 0 {
        None
    } else if vals[0] is Some {
        vals[0]
    } else {
        spec_first_present(vals.drop_first())
    }
}

/// Resolves one configuration setting from the candidate values of its
/// primary key and its deprecated aliases, given in precedence order: the
/// first present candidate wins, so the primary key always beats an alias.
/// Resolution happens once at startup; the caller reads the environment and
/// hands the candidates in as plain values.
pub fn resolve_setting(vals: &Vec<Option<String>>) -> (r: Option<String>)
    ensures
        r == spec_first_present(vals@),
{
    proof {
        assert(vals@.skip(0) =~= vals@);
    }
    let mut i: usize = 0;
    while i < vals.len()
        invariant
            i <= vals@.len(),
            spec_first_present(vals@.skip(i as int)) == spec_first_present(vals@),
        decreases vals@.len() - i,
    {
        match &vals[i] {
            Some(s) => {
                proof {
                    assert(vals@.skip(i as int)[0] == vals@[i as int]);
                }
                return Some(s.clone());
            },
            None => {
                proof {
                    assert(vals@.skip(i as int)[0] == vals@[i as int]);
                    assert(vals@.skip(i as int).drop_first() =~= vals@.skip(i as int + 1));
                }
            },
        }
        i = i + 1;
    }
    proof {
        assert(vals@.skip(vals@.len() as int) =~= Seq::<Option<String>>::empty());
    }
    None
}

/// Whether startup should attempt to acquire the read-bypass capability:
/// only when running containerized, and never when explicitly disabled.
/// Failure to acquire it later merely degrades to ambient file permissions.
pub fn should_elevate_capabilities(containerized: bool, elevation_disabled: bool) -> (r: bool)
    ensures
        r == (containerized && !elevation_disabled),
{
    containerized && !elevation_disabled
}

/// Whether the capability set acquired at startup actually grants the read
/// bypass: either of the two discretionary-access overrides suffices.
pub fn read_bypass_granted(dac_read_search: bool, dac_override: bool) -> (r: bool)
    ensures
        r == (dac_read_search || dac_override),
{
    dac_read_search || dac_override
}

} // verus!
