//! Limits and errors of the routed mixer: device chains, device racks, the
//! compiled routing graph, and publishing a routing revision.
//!
//! Storage for delay compensation and device delays is allocated on the
//! control thread before a revision is published, so every budget is
//! checked there, with overflow reported rather than wrapped.
use vstd::prelude::*;
use crate::engine::MAX_FRAMES;

verus! {

/// Most devices one chain or rack holds.
pub const MAX_DEVICES: usize = 16;
/// Largest delay storage, in frames, all racks of a revision may hold.
pub const MAX_DELAY_STORAGE_FRAMES: usize = 3_840_004;
/// Largest combined delay storage one graph revision accepts.
pub const MAX_COMPENSATION_FRAMES: usize = 1_920_000;

/// Why a device chain could not be built or run.
#[derive(Clone, Copy, Debug, PartialEq, Eq)]
pub enum DeviceError {
    Capacity,
    InvalidSampleRate,
    InvalidParameter,
    BufferSize,
    StorageCapacity,
}

/// What building a chain of devices comes to, device by device: each
/// device's delay storage in frames, or `None` for a device whose
/// parameters are out of range. The sum is the chain's delay storage, two
/// channels of each delay device's frames; the first refused device, or the
/// first sum past [`MAX_DELAY_STORAGE_FRAMES`], decides the error.
pub open spec fn chain_plan(devices: Seq<Option<usize>>) -> Result<int, DeviceError>
    decreases devices.len(),
{
    if devices.len() == 0 {
        Ok(0)
    } else {
        match chain_plan(devices.drop_last()) {
            Err(error) => Err(error),
            Ok(sum) => match devices.last() {
                None => Err(DeviceError::InvalidParameter),
                Some(frames) => if sum + 2 * frames > MAX_DELAY_STORAGE_FRAMES {
                    Err(DeviceError::StorageCapacity)
                } else {
                    Ok(sum + 2 * frames)
                },
            },
        }
    }
}

/// Each device's delay storage, two channels of its frames; a refused
/// device counts as none.
pub open spec fn doubled(devices: Seq<Option<usize>>) -> Seq<int> {
    devices.map_values(
        |device: Option<usize>|
            match device {
                Some(frames) => 2 * frames,
                None => 0int,
            },
    )
}

/// A chain is accepted exactly when no device is refused and its delay
/// storage, two channels of each device's frames summed in order, never
/// passes [`MAX_DELAY_STORAGE_FRAMES`]; the storage it needs is that sum.
/// A parameter fault names a refused device; the only other fault is the
/// storage running out.
pub proof fn lemma_chain_plan(devices: Seq<Option<usize>>)
    ensures
        chain_plan(devices) is Ok <==> (forall|i: int|
            0 <= i < devices.len() ==> (#[trigger] devices[i]) is Some) && within_budget(
            doubled(devices),
            MAX_DELAY_STORAGE_FRAMES as int,
        ),
        chain_plan(devices) matches Ok(sum) ==> sum == total(doubled(devices)),
        chain_plan(devices) == Err::<int, DeviceError>(DeviceError::InvalidParameter) ==> exists|
            i: int,
        | 0 <= i < devices.len() && (#[trigger] devices[i]) is None,
        chain_plan(devices) is Err ==> chain_plan(devices) == Err::<int, DeviceError>(
            DeviceError::InvalidParameter,
        ) || chain_plan(devices) == Err::<int, DeviceError>(DeviceError::StorageCapacity),
    decreases devices.len(),
{
    let whole = doubled(devices);
    if devices.len() == 0 {
        assert(whole.take(0) =~= whole);
        assert forall|k: int| 0 <= k <= whole.len() implies #[trigger] total(whole.take(k))
            <= MAX_DELAY_STORAGE_FRAMES as int by {
            assert(whole.take(k).len() == 0);
        }
    } else {
        let front = devices.drop_last();
        let n = devices.len() as int;
        lemma_chain_plan(front);
        let part = doubled(front);
        assert(whole.drop_last() =~= part);
        assert forall|i: int| 0 <= i < front.len() implies front[i] == devices[i] by {}
        assert forall|k: int| 0 <= k <= part.len() implies whole.take(k) =~= part.take(k) by {}
        assert(whole.take(n) =~= whole);
        assert(total(whole) == total(part) + whole[n - 1]);
        assert(part.take(n - 1) =~= part);
        if within_budget(whole, MAX_DELAY_STORAGE_FRAMES as int) {
            assert forall|k: int| 0 <= k <= part.len() implies #[trigger] total(part.take(k))
                <= MAX_DELAY_STORAGE_FRAMES as int by {
                assert(total(whole.take(k)) <= MAX_DELAY_STORAGE_FRAMES as int);
            }
            assert(total(whole.take(n)) <= MAX_DELAY_STORAGE_FRAMES as int);
        }
        if chain_plan(front) is Err {
            if chain_plan(front) == Err::<int, DeviceError>(DeviceError::InvalidParameter) {
                let i = choose|i: int| 0 <= i < front.len() && (#[trigger] front[i]) is None;
                assert(devices[i] is None);
            }
            if (forall|i: int| 0 <= i < devices.len() ==> (#[trigger] devices[i]) is Some)
                && within_budget(whole, MAX_DELAY_STORAGE_FRAMES as int) {
                assert(forall|i: int| 0 <= i < front.len() ==> (#[trigger] front[i]) is Some);
            }
        } else {
            if devices.last() is None {
                assert(devices[n - 1] is None);
            } else {
                if chain_plan(devices) is Ok {
                    assert forall|k: int| 0 <= k <= whole.len() implies #[trigger] total(
                        whole.take(k),
                    ) <= MAX_DELAY_STORAGE_FRAMES as int by {
                        if k < whole.len() {
                            assert(total(part.take(k)) <= MAX_DELAY_STORAGE_FRAMES as int);
                        }
                    }
                    assert forall|i: int| 0 <= i < devices.len() implies (
                    #[trigger] devices[i]) is Some by {
                        if i < n - 1 {
                            assert(front[i] is Some);
                        }
                    }
                }
            }
            if (forall|i: int| 0 <= i < devices.len() ==> (#[trigger] devices[i]) is Some) {
                assert(devices[n - 1] is Some);
            }
        }
    }
}

/// Checks a chain of devices before any storage is allocated and returns
/// the delay storage it needs, in frames. More than [`MAX_DEVICES`] devices
/// are refused first, then a sample rate the devices cannot run at, then
/// the devices in order (see [`chain_plan`]).
pub fn chain_storage(devices: &[Option<usize>], sample_rate_valid: bool) -> (result: Result<
    usize,
    DeviceError,
>)
    ensures
        devices@.len() > MAX_DEVICES ==> result == Err::<usize, DeviceError>(DeviceError::Capacity),
        devices@.len() <= MAX_DEVICES && !sample_rate_valid ==> result == Err::<usize, DeviceError>(
            DeviceError::InvalidSampleRate,
        ),
        devices@.len() <= MAX_DEVICES && sample_rate_valid ==> match chain_plan(devices@) {
            Ok(sum) => result == Ok::<usize, DeviceError>(sum as usize),
            Err(error) => result == Err::<usize, DeviceError>(error),
        },
        devices@.len() <= MAX_DEVICES && sample_rate_valid ==> (result is Ok <==> (forall|i: int|
            0 <= i < devices@.len() ==> (#[trigger] devices@[i]) is Some) && within_budget(
            doubled(devices@),
            MAX_DELAY_STORAGE_FRAMES as int,
        )),
        result matches Ok(sum) ==> sum == total(doubled(devices@)),
{
    proof {
        lemma_chain_plan(devices@);
    }
    if devices.len() > MAX_DEVICES {
        return Err(DeviceError::Capacity);
    }
    if !sample_rate_valid {
        return Err(DeviceError::InvalidSampleRate);
    }
    let mut sum: usize = 0;
    let mut index: usize = 0;
    while index < devices.len()
        invariant
            index <= devices@.len() <= MAX_DEVICES,
            sample_rate_valid,
            sum <= MAX_DELAY_STORAGE_FRAMES,
            chain_plan(devices@.take(index as int)) == Ok::<int, DeviceError>(sum as int),
        decreases devices@.len() - index,
    {
        let ghost after = devices@.take(index as int + 1);
        assert(after.drop_last() =~= devices@.take(index as int));
        match devices[index] {
            None => {
                proof {
                    lemma_chain_error_persists(devices@, index as int + 1);
                    lemma_chain_plan(devices@);
                }
                return Err(DeviceError::InvalidParameter);
            },
            Some(frames) => {
                if frames > (MAX_DELAY_STORAGE_FRAMES - sum) / 2 {
                    proof {
                        lemma_chain_error_persists(devices@, index as int + 1);
                    lemma_chain_plan(devices@);
                    }
                    return Err(DeviceError::StorageCapacity);
                }
                sum = sum + 2 * frames;
            },
        }
        index += 1;
    }
    assert(devices@.take(devices@.len() as int) =~= devices@);
    Ok(sum)
}

/// Once a prefix of the devices is refused, the whole chain is refused
/// with the same error.
proof fn lemma_chain_error_persists(devices: Seq<Option<usize>>, prefix: int)
    requires
        0 <= prefix <= devices.len(),
        chain_plan(devices.take(prefix)) is Err,
    ensures
        chain_plan(devices) == chain_plan(devices.take(prefix)),
    decreases devices.len() - prefix,
{
    if prefix < devices.len() {
        assert(devices.take(prefix + 1).drop_last() =~= devices.take(prefix));
        lemma_chain_error_persists(devices, prefix + 1);
    } else {
        assert(devices.take(prefix) =~= devices);
    }
}

/// Why a device rack could not be built or run.
#[derive(Clone, Copy, Debug, PartialEq, Eq)]
pub enum RackError {
    Capacity,
    BufferSize,
    Device(DeviceError),
    StorageCapacity,
}

impl From<DeviceError> for RackError {
    fn from(error: DeviceError) -> (rack: Self) {
        RackError::Device(error)
    }
}

impl vstd::std_specs::convert::FromSpecImpl<DeviceError> for RackError {
    open spec fn obeys_from_spec() -> bool {
        true
    }

    open spec fn from_spec(error: DeviceError) -> Self {
        RackError::Device(error)
    }
}

/// The device error a rack error amounts to.
pub open spec fn device_error_of(error: RackError) -> DeviceError {
    match error {
        RackError::Capacity => DeviceError::Capacity,
        RackError::BufferSize => DeviceError::BufferSize,
        RackError::Device(inner) => inner,
        RackError::StorageCapacity => DeviceError::StorageCapacity,
    }
}

/// Reports a rack error as the device error it amounts to.
pub fn device_error(error: RackError) -> (device: DeviceError)
    ensures
        device == device_error_of(error),
{
    match error {
        RackError::Capacity => DeviceError::Capacity,
        RackError::BufferSize => DeviceError::BufferSize,
        RackError::Device(inner) => inner,
        RackError::StorageCapacity => DeviceError::StorageCapacity,
    }
}

/// A device error carried by a rack comes back out as the same device
/// error.
pub proof fn lemma_device_error_round_trip(error: DeviceError)
    ensures
        device_error_of(<RackError as vstd::std_specs::convert::FromSpec<DeviceError>>::from_spec(error)) == error,
{
}

/// Why a compiled routing graph could not be prepared or rendered.
#[derive(Clone, Copy, Debug, PartialEq, Eq)]
pub enum GraphRenderError {
    BufferSize,
    InvalidNode,
    InputSize,
    CompensationCapacity,
}

/// The error, if any, rendering a block of `frames` frames gives, for a
/// graph prepared for `max_frames` with `nodes` nodes, writing `output_node`
/// and fed `inputs` (each a node and the frames it brings). The block size
/// is checked first, then the output node, then each input in order.
pub open spec fn graph_input_error(
    frames: usize,
    max_frames: usize,
    nodes: usize,
    output_node: u16,
    inputs: Seq<(u16, usize)>,
) -> Option<GraphRenderError>
    decreases inputs.len(),
{
    if frames > max_frames {
        Some(GraphRenderError::BufferSize)
    } else if output_node as usize >= nodes {
        Some(GraphRenderError::InvalidNode)
    } else if inputs.len() == 0 {
        None
    } else {
        match graph_input_error(frames, max_frames, nodes, output_node, inputs.drop_last()) {
            Some(error) => Some(error),
            None => if inputs.last().0 as usize >= nodes {
                Some(GraphRenderError::InvalidNode)
            } else if inputs.last().1 != frames {
                Some(GraphRenderError::InputSize)
            } else {
                None
            },
        }
    }
}

/// Whether every input names a node of the graph and brings exactly
/// `frames` frames.
pub open spec fn inputs_fit(frames: usize, nodes: usize, inputs: Seq<(u16, usize)>) -> bool {
    forall|i: int|
        0 <= i < inputs.len() ==> (#[trigger] inputs[i]).0 < nodes && inputs[i].1 == frames
}

/// A block is accepted exactly when it fits the prepared size, its output
/// node exists, and every input names an existing node and brings exactly
/// as many frames as the block, no more and no fewer. A size fault on the
/// inputs names an input of another length; a node fault names a node that
/// does not exist.
pub proof fn lemma_graph_inputs(
    frames: usize,
    max_frames: usize,
    nodes: usize,
    output_node: u16,
    inputs: Seq<(u16, usize)>,
)
    ensures
        graph_input_error(frames, max_frames, nodes, output_node, inputs) is None <==> frames
            <= max_frames && (output_node as usize) < nodes && inputs_fit(frames, nodes, inputs),
        graph_input_error(frames, max_frames, nodes, output_node, inputs) == Some(
            GraphRenderError::InputSize,
        ) ==> exists|i: int| 0 <= i < inputs.len() && (#[trigger] inputs[i]).1 != frames,
        graph_input_error(frames, max_frames, nodes, output_node, inputs) == Some(
            GraphRenderError::InvalidNode,
        ) ==> (output_node as usize) >= nodes || exists|i: int|
            0 <= i < inputs.len() && (#[trigger] inputs[i]).0 >= nodes,
        graph_input_error(frames, max_frames, nodes, output_node, inputs) == Some(
            GraphRenderError::BufferSize,
        ) ==> frames > max_frames,
    decreases inputs.len(),
{
    if inputs.len() > 0 && frames <= max_frames && (output_node as usize) < nodes {
        let front = inputs.drop_last();
        let n = inputs.len() as int;
        lemma_graph_inputs(frames, max_frames, nodes, output_node, front);
        assert forall|i: int| 0 <= i < front.len() implies front[i] == inputs[i] by {}
        if graph_input_error(frames, max_frames, nodes, output_node, front) is Some {
            if graph_input_error(frames, max_frames, nodes, output_node, front) == Some(
                GraphRenderError::InputSize,
            ) {
                let i = choose|i: int| 0 <= i < front.len() && (#[trigger] front[i]).1 != frames;
                assert(inputs[i].1 != frames);
            }
            if graph_input_error(frames, max_frames, nodes, output_node, front) == Some(
                GraphRenderError::InvalidNode,
            ) {
                let i = choose|i: int| 0 <= i < front.len() && (#[trigger] front[i]).0 >= nodes;
                assert(inputs[i].0 >= nodes);
            }
            assert(!inputs_fit(frames, nodes, front));
            if inputs_fit(frames, nodes, inputs) {
                assert(inputs_fit(frames, nodes, front));
            }
        } else {
            assert(inputs[n - 1] == inputs.last());
            if inputs_fit(frames, nodes, inputs) {
                assert(inputs[n - 1].0 < nodes);
            }
        }
    }
}

/// Checks a block against a prepared graph before anything is written.
pub fn check_graph_inputs(
    frames: usize,
    max_frames: usize,
    nodes: usize,
    output_node: u16,
    inputs: &[(u16, usize)],
) -> (result: Result<(), GraphRenderError>)
    ensures
        result is Ok <==> graph_input_error(frames, max_frames, nodes, output_node, inputs@) is None,
        result matches Err(error) ==> graph_input_error(
            frames,
            max_frames,
            nodes,
            output_node,
            inputs@,
        ) == Some(error),
        result is Ok <==> frames <= max_frames && (output_node as usize) < nodes && inputs_fit(
            frames,
            nodes,
            inputs@,
        ),
        result == Err::<(), GraphRenderError>(GraphRenderError::InputSize) ==> exists|i: int|
            0 <= i < inputs@.len() && (#[trigger] inputs@[i]).1 != frames,
{
    proof {
        lemma_graph_inputs(frames, max_frames, nodes, output_node, inputs@);
    }
    if frames > max_frames {
        return Err(GraphRenderError::BufferSize);
    }
    if output_node as usize >= nodes {
        return Err(GraphRenderError::InvalidNode);
    }
    let mut index: usize = 0;
    while index < inputs.len()
        invariant
            index <= inputs@.len(),
            frames <= max_frames,
            (output_node as usize) < nodes,
            graph_input_error(frames, max_frames, nodes, output_node, inputs@.take(index as int))
                is None,
        decreases inputs@.len() - index,
    {
        assert(inputs@.take(index as int + 1).drop_last() =~= inputs@.take(index as int));
        let (node, length) = inputs[index];
        if node as usize >= nodes {
            proof {
                lemma_graph_error_persists(frames, max_frames, nodes, output_node, inputs@, index as int + 1);
            }
            return Err(GraphRenderError::InvalidNode);
        }
        if length != frames {
            proof {
                lemma_graph_error_persists(frames, max_frames, nodes, output_node, inputs@, index as int + 1);
            }
            return Err(GraphRenderError::InputSize);
        }
        index += 1;
    }
    assert(inputs@.take(inputs@.len() as int) =~= inputs@);
    Ok(())
}

/// The first fault among the inputs stays the fault reported, whatever
/// inputs follow it.
proof fn lemma_graph_error_persists(
    frames: usize,
    max_frames: usize,
    nodes: usize,
    output_node: u16,
    inputs: Seq<(u16, usize)>,
    prefix: int,
)
    requires
        0 <= prefix <= inputs.len(),
        graph_input_error(frames, max_frames, nodes, output_node, inputs.take(prefix)) is Some,
    ensures
        graph_input_error(frames, max_frames, nodes, output_node, inputs) == graph_input_error(
            frames,
            max_frames,
            nodes,
            output_node,
            inputs.take(prefix),
        ),
    decreases inputs.len() - prefix,
{
    if prefix < inputs.len() {
        let longer = inputs.take(prefix + 1);
        assert(longer.drop_last() =~= inputs.take(prefix));
        lemma_graph_error_persists(frames, max_frames, nodes, output_node, inputs, prefix + 1);
    } else {
        assert(inputs.take(prefix) =~= inputs);
    }
}

/// Why a routing revision could not be published.
#[derive(Clone, Copy, Debug, PartialEq, Eq)]
pub enum RoutingPublishError {
    Graph(GraphRenderError),
    Device(DeviceError),
}

/// The sum of `frames`.
pub open spec fn total(frames: Seq<int>) -> int
    decreases frames.len(),
{
    if frames.len() == 0 {
        0
    } else {
        total(frames.drop_last()) + frames.last()
    }
}

/// Whether every prefix of `frames` sums to at most `limit`. With
/// nonnegative entries that is the same as the whole sum staying within it.
pub open spec fn within_budget(frames: Seq<int>, limit: int) -> bool {
    forall|k: int| 0 <= k <= frames.len() ==> #[trigger] total(frames.take(k)) <= limit
}

/// Delays as whole numbers.
pub open spec fn delays_of(delays: Seq<Option<u64>>) -> Seq<int> {
    delays.map_values(|delay: Option<u64>| delay.unwrap() as int)
}

/// Frame counts as whole numbers.
pub open spec fn frames_of(racks: Seq<usize>) -> Seq<int> {
    racks.map_values(|frames: usize| frames as int)
}

/// The delay storage a graph prepared for blocks of up to `max_frames`
/// frames needs, in frames: each edge's compensation delay, summed. A block
/// limit outside one to [`MAX_FRAMES`] is refused first; then an edge whose
/// delay is unknown, or a sum past [`MAX_COMPENSATION_FRAMES`].
pub fn compensation_frames(max_frames: usize, delays: &[Option<u64>]) -> (result: Result<
    usize,
    GraphRenderError,
>)
    ensures
        max_frames == 0 || max_frames > MAX_FRAMES ==> result == Err::<usize, GraphRenderError>(
            GraphRenderError::BufferSize,
        ),
        1 <= max_frames <= MAX_FRAMES ==> (result is Ok <==> (forall|k: int|
            0 <= k < delays@.len() ==> delays@[k] is Some) && within_budget(
            delays_of(delays@),
            MAX_COMPENSATION_FRAMES as int,
        )),
        1 <= max_frames <= MAX_FRAMES ==> (result matches Err(error) ==> error
            == GraphRenderError::CompensationCapacity),
        result matches Ok(sum) ==> sum == total(delays_of(delays@)),
{
    if max_frames == 0 || max_frames > MAX_FRAMES {
        return Err(GraphRenderError::BufferSize);
    }
    let mut sum: usize = 0;
    let mut index: usize = 0;
    while index < delays.len()
        invariant
            index <= delays@.len(),
            1 <= max_frames <= MAX_FRAMES,
            forall|k: int| 0 <= k < index ==> delays@[k] is Some,
            sum == total(delays_of(delays@.take(index as int))),
            within_budget(delays_of(delays@.take(index as int)), MAX_COMPENSATION_FRAMES as int),
        decreases delays@.len() - index,
    {
        let ghost before = delays@.take(index as int);
        let ghost after = delays@.take(index as int + 1);
        assert(delays_of(after).drop_last() =~= delays_of(before));
        assert(forall|k: int|
            0 <= k <= index ==> delays_of(after).take(k) =~= delays_of(before).take(k));
        let delay = match delays[index] {
            Some(delay) => delay,
            None => {
                return Err(GraphRenderError::CompensationCapacity);
            },
        };
        if delay > MAX_COMPENSATION_FRAMES as u64 || sum + (delay as usize)
            > MAX_COMPENSATION_FRAMES {
            proof {
                assert(delays_of(after).take(index as int + 1) =~= delays_of(after));
                assert(!within_budget(delays_of(delays@), MAX_COMPENSATION_FRAMES as int)) by {
                    assert(delays@.take(index as int + 1) =~= after);
                    assert(delays_of(delays@).take(index as int + 1) =~= delays_of(after));
                    assert(delays_of(after).last() == delay as int);
                    assert(total(delays_of(after)) == sum + delay);
                    assert(total(delays_of(delays@).take(index as int + 1))
                        > MAX_COMPENSATION_FRAMES);
                }
            }
            return Err(GraphRenderError::CompensationCapacity);
        }
        sum = sum + delay as usize;
        index += 1;
        proof {
            assert(delays_of(after).take(index as int) =~= delays_of(after));
        }
    }
    proof {
        assert(delays@.take(delays@.len() as int) =~= delays@);
    }
    Ok(sum)
}

/// The delay storage all racks of a revision hold, in frames. A sum past
/// [`MAX_DELAY_STORAGE_FRAMES`] is refused.
pub fn delay_storage_frames(racks: &[usize]) -> (result: Result<usize, RoutingPublishError>)
    ensures
        result is Ok <==> within_budget(
            frames_of(racks@),
            MAX_DELAY_STORAGE_FRAMES as int,
        ),
        result matches Ok(sum) ==> sum == total(frames_of(racks@)),
        result matches Err(error) ==> error == RoutingPublishError::Device(
            DeviceError::StorageCapacity,
        ),
{
    let ghost whole = frames_of(racks@);
    let mut sum: usize = 0;
    let mut index: usize = 0;
    while index < racks.len()
        invariant
            index <= racks@.len(),
            whole == frames_of(racks@),
            sum == total(whole.take(index as int)),
            within_budget(whole.take(index as int), MAX_DELAY_STORAGE_FRAMES as int),
        decreases racks@.len() - index,
    {
        let ghost before = whole.take(index as int);
        let ghost after = whole.take(index as int + 1);
        assert(after.drop_last() =~= before);
        assert(forall|k: int| 0 <= k <= index ==> after.take(k) =~= before.take(k));
        let frames = racks[index];
        if frames > MAX_DELAY_STORAGE_FRAMES || sum + frames > MAX_DELAY_STORAGE_FRAMES {
            proof {
                assert(after.take(index as int + 1) =~= after);
                assert(whole.take(index as int + 1) == after);
                assert(total(after) == sum + frames);
                assert(total(whole.take(index as int + 1)) > MAX_DELAY_STORAGE_FRAMES);
            }
            return Err(RoutingPublishError::Device(DeviceError::StorageCapacity));
        }
        sum = sum + frames;
        index += 1;
        proof {
            assert(after.take(index as int) =~= after);
        }
    }
    proof {
        assert(whole.take(racks@.len() as int) =~= whole);
    }
    Ok(sum)
}

} // verus!
