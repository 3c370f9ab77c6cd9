//! What the platform hosts have in common once a device list has been read:
//! turning the host's names into stable identifiers, describing the listed
//! endpoints, choosing the default, and refusing configurations no host
//! stream can honor.
use crate::audio::{
    AudioError, DeviceId, DeviceInfo, Direction, Name, Rates, SUPPORTED_RATES, StreamConfig,
    config_error, supported_rates_seq, truncated_bytes,
};
use vstd::prelude::*;
use vstd::string::StringSliceAdditionalSpecFns;
use vstd::utf8::encode_utf8;

verus! {

/// Starting value of the identifier hash.
pub const HASH_OFFSET: u64 = 0xcbf2_9ce4_8422_2325;
/// Multiplier of the identifier hash.
pub const HASH_PRIME: u64 = 0x0000_0100_0000_01b3;

/// The 64-bit FNV-1a hash of `bytes`.
pub open spec fn fnv1a(bytes: Seq<u8>) -> u64
    decreases bytes.len(),
{
    if bytes.len() == 0 {
        HASH_OFFSET
    } else {
        vstd::wrapping::u64_specs::wrapping_mul(
            fnv1a(bytes.drop_last()) ^ (bytes.last() as u64),
            HASH_PRIME,
        )
    }
}

/// The identifier a host name maps to: its hash, with zero, which is
/// reserved for "no device", moved to one.
pub open spec fn identifier_of(bytes: Seq<u8>) -> u64 {
    if fnv1a(bytes) == 0 {
        1
    } else {
        fnv1a(bytes)
    }
}

/// The identifier of the device the host calls `name`. The same name always
/// gives the same identifier, and no name gives zero.
pub fn identifier(name: &str) -> (id: u64)
    ensures
        id == identifier_of(name.spec_bytes()),
        id != 0,
{
    let bytes = name.as_bytes();
    let mut hash: u64 = HASH_OFFSET;
    let mut index: usize = 0;
    while index < bytes.len()
        invariant
            index <= bytes@.len(),
            hash == fnv1a(bytes@.take(index as int)),
        decreases bytes@.len() - index,
    {
        assert(bytes@.take(index as int + 1).drop_last() =~= bytes@.take(index as int));
        hash = (hash ^ (bytes[index] as u64)).wrapping_mul(HASH_PRIME);
        index += 1;
    }
    assert(bytes@.take(bytes@.len() as int) =~= bytes@);
    if hash == 0 {
        1
    } else {
        hash
    }
}

/// One endpoint as the host lists it: the host's own identifier, the name
/// to show, and whether the host marks it as its default.
#[derive(Clone, Debug, PartialEq, Eq)]
pub struct Endpoint {
    /// The host's identifier for the endpoint.
    pub id: String,
    /// Name to show a person.
    pub name: String,
    /// Whether the host reports this as its default.
    pub is_default: bool,
}

/// How an endpoint is described to a caller: identified by the hash of the
/// host's identifier, named by its truncated name, stereo, at every
/// supported rate (a shared host converts for the engine).
pub open spec fn describes(info: DeviceInfo, endpoint: Endpoint, direction: Direction) -> bool {
    &&& info.id == DeviceId(identifier_of(encode_utf8(endpoint.id@)))
    &&& info.name@ == truncated_bytes(encode_utf8(endpoint.name@))
    &&& info.direction == direction
    &&& info.channels == 2
    &&& info.rates@ == supported_rates_seq()
    &&& info.is_default == endpoint.is_default
}

/// A described endpoint keeps the host's default mark and identifier, in
/// either direction.
pub proof fn lemma_described_endpoint(info: DeviceInfo, endpoint: Endpoint, direction: Direction)
    requires
        describes(info, endpoint, direction),
    ensures
        info.is_default == endpoint.is_default,
        info.direction == direction,
        info.id == DeviceId(identifier_of(encode_utf8(endpoint.id@))),
{
}

/// Describes one listed endpoint.
pub fn describe_endpoint(endpoint: &Endpoint, direction: Direction) -> (info: DeviceInfo)
    ensures
        describes(info, *endpoint, direction),
        info.is_default == endpoint.is_default,
        info.direction == direction,
        info.id == DeviceId(identifier_of(encode_utf8(endpoint.id@))),
{
    let supported = SUPPORTED_RATES;
    let rates = Rates::from_slice(supported.as_slice());
    assert(supported@ == supported_rates_seq());
    assert(rates@ =~= supported_rates_seq());
    DeviceInfo {
        id: DeviceId(identifier(endpoint.id.as_str())),
        name: Name::truncated(endpoint.name.as_str()),
        direction,
        channels: 2,
        rates,
        is_default: endpoint.is_default,
    }
}

/// Describes the listed endpoints into `out`, as many as fit, in the order
/// the host listed them. Returns how many were written; the rest of `out`
/// is left alone.
pub fn describe_endpoints(endpoints: &[Endpoint], direction: Direction, out: &mut [DeviceInfo]) -> (written: usize)
    ensures
        written == (if endpoints@.len() < old(out)@.len() {
            endpoints@.len()
        } else {
            old(out)@.len()
        }),
        final(out)@.len() == old(out)@.len(),
        forall|k: int| 0 <= k < written ==> describes(final(out)@[k], endpoints@[k], direction),
        forall|k: int|
            0 <= k < written ==> (#[trigger] final(out)@[k]).is_default == endpoints@[k].is_default
                && final(out)@[k].direction == direction,
        forall|k: int| written <= k < old(out)@.len() ==> final(out)@[k] == old(out)@[k],
{
    let mut written: usize = 0;
    while written < endpoints.len() && written < out.len()
        invariant
            written <= endpoints@.len(),
            written <= out@.len(),
            out@.len() == old(out)@.len(),
            forall|k: int| 0 <= k < written ==> describes(out@[k], endpoints@[k], direction),
            forall|k: int| written <= k < out@.len() ==> out@[k] == old(out)@[k],
        decreases endpoints@.len() - written,
    {
        out[written] = describe_endpoint(&endpoints[written], direction);
        written += 1;
    }
    assert forall|k: int| 0 <= k < written implies (#[trigger] out@[k]).is_default
        == endpoints@[k].is_default && out@[k].direction == direction by {
        assert(describes(out@[k], endpoints@[k], direction));
    }
    written
}

/// Which listed endpoint is the default: the last one the host marks as
/// default, or the first listed when none is marked.
pub open spec fn default_index(endpoints: Seq<Endpoint>) -> Option<int>
    decreases endpoints.len(),
{
    if endpoints.len() == 0 {
        None
    } else {
        let earlier = default_index(endpoints.drop_last());
        if endpoints.last().is_default || earlier is None {
            Some(endpoints.len() - 1)
        } else {
            earlier
        }
    }
}

proof fn lemma_default_index_bounds(endpoints: Seq<Endpoint>)
    ensures
        default_index(endpoints) is None <==> endpoints.len() == 0,
        default_index(endpoints) matches Some(k) ==> 0 <= k < endpoints.len(),
    decreases endpoints.len(),
{
    if endpoints.len() > 0 {
        lemma_default_index_bounds(endpoints.drop_last());
    }
}

/// Whether `k` is the last endpoint of `endpoints` the host marks as
/// default.
pub open spec fn last_marked(endpoints: Seq<Endpoint>, k: int) -> bool {
    &&& 0 <= k < endpoints.len()
    &&& endpoints[k].is_default
    &&& forall|j: int| k < j < endpoints.len() ==> !(#[trigger] endpoints[j]).is_default
}

/// The default endpoint is the last one the host marks as default, never
/// an unmarked one while any is marked; only when none is marked is it the
/// first listed; and an empty listing has none.
pub proof fn lemma_default_is_last_marked(endpoints: Seq<Endpoint>)
    ensures
        endpoints.len() == 0 ==> default_index(endpoints) is None,
        forall|k: int| last_marked(endpoints, k) ==> default_index(endpoints) == Some(k),
        endpoints.len() > 0 && (forall|j: int|
            0 <= j < endpoints.len() ==> !(#[trigger] endpoints[j]).is_default) ==> default_index(
            endpoints,
        ) == Some(0int),
        default_index(endpoints) matches Some(k) ==> 0 <= k < endpoints.len() && (
        endpoints[k].is_default || forall|j: int|
            0 <= j < endpoints.len() ==> !(#[trigger] endpoints[j]).is_default),
    decreases endpoints.len(),
{
    if endpoints.len() > 0 {
        let front = endpoints.drop_last();
        lemma_default_is_last_marked(front);
        lemma_default_index_bounds(front);
        assert forall|k: int| last_marked(endpoints, k) implies default_index(endpoints) == Some(
            k,
        ) by {
            if k < endpoints.len() - 1 {
                assert(!endpoints[endpoints.len() - 1].is_default);
                assert(last_marked(front, k)) by {
                    assert forall|j: int| k < j < front.len() implies !(
                    #[trigger] front[j]).is_default by {
                        assert(front[j] == endpoints[j]);
                    }
                }
            }
        }
        if forall|j: int| 0 <= j < endpoints.len() ==> !(#[trigger] endpoints[j]).is_default {
            assert(!endpoints.last().is_default);
            if front.len() > 0 {
                assert forall|j: int| 0 <= j < front.len() implies !(
                #[trigger] front[j]).is_default by {
                    assert(front[j] == endpoints[j]);
                }
            }
        }
        match default_index(endpoints) {
            Some(k) => {
                if !endpoints[k].is_default {
                    if k < endpoints.len() - 1 {
                        assert(front[k] == endpoints[k]);
                        assert forall|j: int| 0 <= j < endpoints.len() implies !(
                        #[trigger] endpoints[j]).is_default by {
                            if j < front.len() {
                                assert(front[j] == endpoints[j]);
                            }
                        }
                    } else {
                        assert forall|j: int| 0 <= j < endpoints.len() implies !(
                        #[trigger] endpoints[j]).is_default by {
                            if j < front.len() {
                                assert(front[j] == endpoints[j]);
                            }
                        }
                    }
                }
            },
            None => {},
        }
    }
}

/// The identifier of the default endpoint among those listed.
pub fn default_endpoint(endpoints: &[Endpoint]) -> (result: Result<DeviceId, AudioError>)
    ensures
        default_index(endpoints@) is None ==> result == Err::<DeviceId, AudioError>(
            AudioError::DeviceMissing,
        ),
        default_index(endpoints@) matches Some(k) ==> result == Ok::<DeviceId, AudioError>(
            DeviceId(identifier_of(encode_utf8(endpoints@[k].id@))),
        ),
        endpoints@.len() == 0 ==> result == Err::<DeviceId, AudioError>(AudioError::DeviceMissing),
        forall|k: int|
            last_marked(endpoints@, k) ==> result == Ok::<DeviceId, AudioError>(
                DeviceId(identifier_of(encode_utf8(endpoints@[k].id@))),
            ),
        endpoints@.len() > 0 && (forall|j: int|
            0 <= j < endpoints@.len() ==> !(#[trigger] endpoints@[j]).is_default) ==> result
            == Ok::<DeviceId, AudioError>(
            DeviceId(identifier_of(encode_utf8(endpoints@[0].id@))),
        ),
{
    proof {
        lemma_default_is_last_marked(endpoints@);
    }
    let mut found: Option<usize> = None;
    let mut index: usize = 0;
    while index < endpoints.len()
        invariant
            index <= endpoints@.len(),
            found matches Some(k) ==> default_index(endpoints@.take(index as int)) == Some(
                k as int,
            ),
            found is None ==> default_index(endpoints@.take(index as int)) is None,
        decreases endpoints@.len() - index,
    {
        assert(endpoints@.take(index as int + 1).drop_last() =~= endpoints@.take(index as int));
        if endpoints[index].is_default || found.is_none() {
            found = Some(index);
        }
        index += 1;
    }
    assert(endpoints@.take(endpoints@.len() as int) =~= endpoints@);
    proof {
        lemma_default_index_bounds(endpoints@);
    }
    match found {
        Some(k) => Ok(DeviceId(identifier(endpoints[k].id.as_str()))),
        None => Err(AudioError::DeviceMissing),
    }
}

/// The error, if any, a host stream gives for `config`: whatever validation
/// finds first, then anything but stereo.
pub open spec fn stereo_error(config: StreamConfig) -> Option<AudioError> {
    if config_error(config) is Some {
        config_error(config)
    } else if config.channels != 2 {
        Some(AudioError::Unsupported("channel count"))
    } else {
        None
    }
}

/// The position of the first endpoint whose identifier is `wanted`, or
/// `None` when no endpoint has it.
pub fn first_with_identifier(endpoints: &[Endpoint], wanted: u64) -> (found: Option<usize>)
    ensures
        found is None <==> forall|k: int|
            0 <= k < endpoints@.len() ==> identifier_of(encode_utf8(endpoints@[k].id@)) != wanted,
        found matches Some(index) ==> {
            &&& index < endpoints@.len()
            &&& identifier_of(encode_utf8(endpoints@[index as int].id@)) == wanted
            &&& forall|k: int|
                0 <= k < index ==> identifier_of(encode_utf8(endpoints@[k].id@)) != wanted
        },
{
    let mut index: usize = 0;
    while index < endpoints.len()
        invariant
            index <= endpoints@.len(),
            forall|k: int|
                0 <= k < index ==> identifier_of(encode_utf8(endpoints@[k].id@)) != wanted,
        decreases endpoints@.len() - index,
    {
        if identifier(endpoints[index].id.as_str()) == wanted {
            return Some(index);
        }
        index += 1;
    }
    None
}

/// Refuses a configuration a host stream cannot honor: host streams are
/// stereo only.
pub fn check_stereo(config: &StreamConfig) -> (result: Result<(), AudioError>)
    ensures
        result is Ok <==> stereo_error(*config) is None,
        result matches Err(error) ==> stereo_error(*config) == Some(error),
{
    match config.validate() {
        Ok(()) => {},
        Err(error) => {
            return Err(error);
        },
    }
    if config.channels != 2 {
        return Err(AudioError::Unsupported("channel count"));
    }
    Ok(())
}

} // verus!
