//! Composite keys under which the local store holds a device's documents.

use vstd::prelude::*;
use vstd::string::*;

verus! {

/// The separator between the device id and the submodel id, as a sequence.
pub open spec fn separator() -> Seq<char> {
    seq![':']
}

/// The suffix under which the id dictionary of a device is stored.
pub open spec fn dictionary_suffix() -> Seq<char> {
    "submodels_dictionary"@
}

/// The key of a submodel: device id, a colon, submodel id.
pub open spec fn submodel_key_spec(device: Seq<char>, submodel: Seq<char>) -> Seq<char> {
    device + separator() + submodel
}

/// Forms the key `"<device>:<submodel>"`.
pub fn submodel_key(device: &str, submodel: &str) -> (key: String)
    ensures
        key@ == submodel_key_spec(device@, submodel@),
{
    proof {
        reveal_strlit(":");
    }
    let mut key = String::from_str(device);
    key.append(":");
    assert(":"@ =~= separator());
    key.append(submodel);
    key
}

/// The key of the shell document is the device id itself.
pub fn shell_key(device: &str) -> (key: String)
    ensures
        key@ == device@,
{
    String::from_str(device)
}

/// Forms the key `"<device>:submodels_dictionary"`.
pub fn dictionary_key(device: &str) -> (key: String)
    ensures
        key@ == submodel_key_spec(device@, dictionary_suffix()),
{
    submodel_key(device, "submodels_dictionary")
}

/// Two keys of one device are equal only for equal submodel ids, and two
/// keys with colon-free device ids are equal only for equal pairs.
pub proof fn lemma_submodel_key_injective(d1: Seq<char>, s1: Seq<char>, d2: Seq<char>, s2: Seq<char>)
    requires
        !d1.contains(':'),
        !d2.contains(':'),
        submodel_key_spec(d1, s1) == submodel_key_spec(d2, s2),
    ensures
        d1 == d2,
        s1 == s2,
{
    let k1 = submodel_key_spec(d1, s1);
    let k2 = submodel_key_spec(d2, s2);
    if d1.len() < d2.len() {
        assert(k1[d1.len() as int] == ':');
        assert(k2[d1.len() as int] == d2[d1.len() as int]);
        assert(d2.contains(':'));
    } else if d2.len() < d1.len() {
        assert(k2[d2.len() as int] == ':');
        assert(k1[d2.len() as int] == d1[d2.len() as int]);
        assert(d1.contains(':'));
    }
    assert(d1 =~= d2) by {
        assert forall|i: int| 0 <= i < d1.len() implies d1[i] == d2[i] by {
            assert(k1[i] == d1[i]);
            assert(k2[i] == d2[i]);
        }
    }
    assert(s1 =~= s2) by {
        assert(s1.len() == s2.len()) by {
            assert(k1.len() == d1.len() + 1 + s1.len());
            assert(k2.len() == d2.len() + 1 + s2.len());
        }
        assert forall|i: int| 0 <= i < s1.len() implies s1[i] == s2[i] by {
            assert(k1[d1.len() + 1 + i] == s1[i]);
            assert(k2[d2.len() + 1 + i] == s2[i]);
        }
    }
}

/// Under one device, two keys are equal only for equal submodel ids.
pub proof fn lemma_same_device_keys(device: Seq<char>, s1: Seq<char>, s2: Seq<char>)
    requires
        submodel_key_spec(device, s1) == submodel_key_spec(device, s2),
    ensures
        s1 == s2,
{
    let k1 = submodel_key_spec(device, s1);
    let k2 = submodel_key_spec(device, s2);
    assert(k1.len() == device.len() + 1 + s1.len());
    assert(k2.len() == device.len() + 1 + s2.len());
    assert forall|i: int| 0 <= i < s1.len() implies s1[i] == s2[i] by {
        assert(k1[device.len() + 1 + i] == s1[i]);
        assert(k2[device.len() + 1 + i] == s2[i]);
    }
    assert(s1 =~= s2);
}

/// The key of a shell is the key of none of its submodels.
pub proof fn lemma_shell_key_apart(device: Seq<char>, submodel: Seq<char>)
    ensures
        submodel_key_spec(device, submodel) != device,
{
    assert(submodel_key_spec(device, submodel).len() == device.len() + 1 + submodel.len());
}

} // verus!
