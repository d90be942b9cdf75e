//! The audio listener: position and orientation of the person who listens.

use vstd::prelude::*;
use crate::concrete_base::{BaseView, ConcreteBaseAudioContext, same_settings};
use crate::ids::{
    AudioNodeId, IdsView, LISTENER_PARAM_IDS_START, ids_taken, lemma_ids_taken_step,
};
use crate::node::{
    ChannelConfig, ChannelCountMode, ChannelInterpretation, NodePorts, NodeProcessor,
};
use crate::param::{
    AudioContextRegistration, AudioParam, AudioParamDescriptor, AudioParamInner, AutomationRate,
    F32_MAX, F32_MIN, F32_MINUS_ONE, F32_ONE, F32_ZERO, Float32,
};

verus! {

/// Raw parts of the params of the listener, from which the listener can be put together again.
#[derive(Clone, Copy, Debug, PartialEq, Eq, Structural)]
pub struct AudioListenerParams {
    pub position_x: AudioParamInner,
    pub position_y: AudioParamInner,
    pub position_z: AudioParamInner,
    pub forward_x: AudioParamInner,
    pub forward_y: AudioParamInner,
    pub forward_z: AudioParamInner,
    pub up_x: AudioParamInner,
    pub up_y: AudioParamInner,
    pub up_z: AudioParamInner,
}

impl View for AudioListenerParams {
    type V = Seq<AudioParamInner>;

    /// The nine raw parts, in the order of the params of an [`AudioListener`].
    open spec fn view(&self) -> Seq<AudioParamInner> {
        seq![
            self.position_x,
            self.position_y,
            self.position_z,
            self.forward_x,
            self.forward_y,
            self.forward_z,
            self.up_x,
            self.up_y,
            self.up_z,
        ]
    }
}

/// Represents the position and orientation of the person listening to the audio scene.
///
/// All panner nodes spatialize in relation to the listener of their context.
#[derive(Debug)]
pub struct AudioListener {
    pub(crate) position_x: AudioParam,
    pub(crate) position_y: AudioParam,
    pub(crate) position_z: AudioParam,
    pub(crate) forward_x: AudioParam,
    pub(crate) forward_y: AudioParam,
    pub(crate) forward_z: AudioParam,
    pub(crate) up_x: AudioParam,
    pub(crate) up_y: AudioParam,
    pub(crate) up_z: AudioParam,
}

impl View for AudioListener {
    type V = Seq<AudioParam>;

    /// The nine params: x, y and z of the position, of the forward and of the up direction.
    closed spec fn view(&self) -> Seq<AudioParam> {
        seq![
            self.position_x,
            self.position_y,
            self.position_z,
            self.forward_x,
            self.forward_y,
            self.forward_z,
            self.up_x,
            self.up_y,
            self.up_z,
        ]
    }
}

impl AudioListener {
    pub fn position_x(&self) -> (r: &AudioParam)
        ensures
            *r == self@[0],
    {
        &self.position_x
    }

    pub fn position_y(&self) -> (r: &AudioParam)
        ensures
            *r == self@[1],
    {
        &self.position_y
    }

    pub fn position_z(&self) -> (r: &AudioParam)
        ensures
            *r == self@[2],
    {
        &self.position_z
    }

    pub fn forward_x(&self) -> (r: &AudioParam)
        ensures
            *r == self@[3],
    {
        &self.forward_x
    }

    pub fn forward_y(&self) -> (r: &AudioParam)
        ensures
            *r == self@[4],
    {
        &self.forward_y
    }

    pub fn forward_z(&self) -> (r: &AudioParam)
        ensures
            *r == self@[5],
    {
        &self.forward_z
    }

    pub fn up_x(&self) -> (r: &AudioParam)
        ensures
            *r == self@[6],
    {
        &self.up_x
    }

    pub fn up_y(&self) -> (r: &AudioParam)
        ensures
            *r == self@[7],
    {
        &self.up_y
    }

    pub fn up_z(&self) -> (r: &AudioParam)
        ensures
            *r == self@[8],
    {
        &self.up_z
    }
}

/// The registration of the `i`th param of the listener.
pub open spec fn listener_param_registration(i: int) -> AudioContextRegistration {
    AudioContextRegistration { id: AudioNodeId((LISTENER_PARAM_IDS_START + i) as u64) }
}

fn listener_param_at(i: u64, raw_parts: AudioParamInner) -> (r: AudioParam)
    requires
        i < 9,
    ensures
        r.registration == listener_param_registration(i as int),
        r.raw_parts == raw_parts,
{
    let registration = AudioContextRegistration { id: AudioNodeId(LISTENER_PARAM_IDS_START + i) };
    AudioParam::from_raw_parts(registration, raw_parts)
}

impl AudioListenerParams {
    /// Puts the listener together, under the ids that are hardcoded for its params.
    pub fn listener(&self) -> (r: AudioListener)
        ensures
            r@.len() == 9,
            forall|i: int|
                0 <= i < 9 ==> (#[trigger] r@[i]) == (AudioParam {
                    registration: listener_param_registration(i),
                    raw_parts: self@[i],
                }),
    {
        AudioListener {
            position_x: listener_param_at(0, self.position_x),
            position_y: listener_param_at(1, self.position_y),
            position_z: listener_param_at(2, self.position_z),
            forward_x: listener_param_at(3, self.forward_x),
            forward_y: listener_param_at(4, self.forward_y),
            forward_z: listener_param_at(5, self.forward_z),
            up_x: listener_param_at(6, self.up_x),
            up_y: listener_param_at(7, self.up_y),
            up_z: listener_param_at(8, self.up_z),
        }
    }

    /// Takes the raw parts of the params of a listener.
    pub fn from_listener(listener: AudioListener) -> (r: Self)
        ensures
            r@.len() == 9,
            forall|i: int| 0 <= i < 9 ==> (#[trigger] r@[i]) == listener@[i].raw_parts,
    {
        AudioListenerParams {
            position_x: listener.position_x.into_raw_parts(),
            position_y: listener.position_y.into_raw_parts(),
            position_z: listener.position_z.into_raw_parts(),
            forward_x: listener.forward_x.into_raw_parts(),
            forward_y: listener.forward_y.into_raw_parts(),
            forward_z: listener.forward_z.into_raw_parts(),
            up_x: listener.up_x.into_raw_parts(),
            up_y: listener.up_y.into_raw_parts(),
            up_z: listener.up_z.into_raw_parts(),
        }
    }
}

/// Settings of the params for cartesian coordinates: any finite number, computed per sample.
pub open spec fn coordinate_spec(default_value: Float32) -> AudioParamInner {
    AudioParamInner {
        automation_rate: AutomationRate::A,
        default_value,
        min_value: Float32 { bits: F32_MIN },
        max_value: Float32 { bits: F32_MAX },
    }
}

/// Returns the settings of the params for cartesian coordinates.
pub fn param_opts(default_value: Float32) -> (r: AudioParamDescriptor)
    ensures
        r.inner_spec() == coordinate_spec(default_value),
        r.name@ == Seq::<char>::empty(),
{
    AudioParamDescriptor {
        name: String::new(),
        min_value: Float32 { bits: F32_MIN },
        max_value: Float32 { bits: F32_MAX },
        default_value,
        automation_rate: AutomationRate::A,
    }
}

/// Settings of the `i`th param of the listener. By default the listener is at the origin, looks
/// down the negative z axis and has its head up along the y axis.
pub open spec fn listener_param(i: int) -> AudioParamInner {
    coordinate_spec(
        if i == 5 {
            Float32 { bits: F32_MINUS_ONE }
        } else if i == 7 {
            Float32 { bits: F32_ONE }
        } else {
            Float32 { bits: F32_ZERO }
        },
    )
}

/// Ports of the listener: no input, and all its params as outputs.
pub open spec fn listener_ports_spec() -> NodePorts {
    NodePorts {
        inputs: 0,
        outputs: 9,
        channel_config: ChannelConfig {
            channel_count: 1,
            channel_count_mode: ChannelCountMode::Explicit,
            channel_interpretation: ChannelInterpretation::Discrete,
        },
    }
}

/// The ids of the params of a listener.
pub open spec fn param_ids(params: Seq<AudioParam>) -> Seq<AudioNodeId> {
    params.map_values(|p: AudioParam| p.registration.id)
}

/// A context in which the first `ids.len()` params of the listener have been created.
pub open spec fn params_created<P, H>(
    v: BaseView<P, H>,
    ids: Seq<AudioNodeId>,
    listener: AudioNodeId,
) -> BaseView<P, H>
    decreases ids.len(),
{
    if ids.len() == 0 {
        v
    } else {
        params_created(v, ids.drop_last(), listener).param_created(
            ids.last(),
            listener_param(ids.len() - 1),
            listener,
        )
    }
}

/// A context in which the listener has been created: first its params, then the listener itself.
pub open spec fn listener_created<P, H>(
    v: BaseView<P, H>,
    ids: Seq<AudioNodeId>,
    listener: AudioNodeId,
) -> BaseView<P, H> {
    params_created(v, ids, listener).registered(
        listener,
        NodeProcessor::Listener,
        listener_ports_spec(),
    )
}

/// Creating params does not depend on the provider of ids.
pub proof fn lemma_params_created_ids<P, H>(
    v: BaseView<P, H>,
    provider: IdsView,
    ids: Seq<AudioNodeId>,
    listener: AudioNodeId,
)
    ensures
        params_created(BaseView { ids: provider, ..v }, ids, listener) == (BaseView {
            ids: provider,
            ..params_created(v, ids, listener)
        }),
    decreases ids.len(),
{
    if ids.len() > 0 {
        lemma_params_created_ids(v, provider, ids.drop_last(), listener);
    }
}

/// Creating params touches neither settings nor connections.
pub proof fn lemma_params_created_settings<P, H>(
    v: BaseView<P, H>,
    ids: Seq<AudioNodeId>,
    listener: AudioNodeId,
)
    ensures
        same_settings(params_created(v, ids, listener), v),
    decreases ids.len(),
{
    if ids.len() > 0 {
        lemma_params_created_settings(v, ids.drop_last(), listener);
    }
}

/// How far the creation of a listener has come, starting from `v0`.
#[verifier::opaque]
spec fn stage<P, H>(
    v0: BaseView<P, H>,
    v: BaseView<P, H>,
    params: Seq<AudioParam>,
    listener: AudioNodeId,
) -> bool {
    &&& v == params_created(BaseView { ids: v.ids, ..v0 }, param_ids(params), listener)
    &&& ids_taken(v0.ids, seq![listener] + param_ids(params), v.ids)
}

/// Creates one more param of the listener.
fn create_listener_param<P, H>(
    context: &mut ConcreteBaseAudioContext<P, H>,
    default_value: Float32,
    listener: &AudioContextRegistration,
    Ghost(v0): Ghost<BaseView<P, H>>,
    Ghost(params): Ghost<Seq<AudioParam>>,
) -> (r: AudioParam)
    requires
        stage(v0, old(context)@, params, listener.id),
        params.len() < 9,
        coordinate_spec(default_value) == listener_param(params.len() as int),
    ensures
        stage(v0, final(context)@, params.push(r), listener.id),
        r.raw_parts == listener_param(params.len() as int),
{
    let ghost before = context@;
    let param = context.create_audio_param(param_opts(default_value), listener);
    proof {
        reveal(stage);
        let ids = param_ids(params);
        lemma_params_created_ids(v0, before.ids, ids, listener.id);
        lemma_params_created_ids(v0, context@.ids, ids, listener.id);
        assert(param_ids(params.push(param)) =~= ids.push(param.registration.id));
        assert(ids.push(param.registration.id).drop_last() =~= ids);
        lemma_ids_taken_step(
            v0.ids,
            seq![listener.id] + ids,
            before.ids,
            param.registration.id,
            context@.ids,
        );
        assert((seq![listener.id] + ids).push(param.registration.id) =~= seq![listener.id]
            + ids.push(param.registration.id));
    }
    param
}

/// Creates all params of the listener.
fn create_listener_params<P, H>(
    context: &mut ConcreteBaseAudioContext<P, H>,
    listener: &AudioContextRegistration,
    Ghost(v0): Ghost<BaseView<P, H>>,
) -> (r: AudioListener)
    requires
        stage(v0, old(context)@, Seq::empty(), listener.id),
    ensures
        stage(v0, final(context)@, r@, listener.id),
        r@.len() == 9,
        forall|i: int| 0 <= i < 9 ==> (#[trigger] r@[i]).raw_parts == listener_param(i),
{
    let ghost s0 = Seq::<AudioParam>::empty();
    let p1 = create_listener_param(
        context,
        Float32 { bits: F32_ZERO },
        listener,
        Ghost(v0),
        Ghost(s0),
    );
    let ghost s1 = s0.push(p1);
    let p2 = create_listener_param(
        context,
        Float32 { bits: F32_ZERO },
        listener,
        Ghost(v0),
        Ghost(s1),
    );
    let ghost s2 = s1.push(p2);
    let p3 = create_listener_param(
        context,
        Float32 { bits: F32_ZERO },
        listener,
        Ghost(v0),
        Ghost(s2),
    );
    let ghost s3 = s2.push(p3);
    let p4 = create_listener_param(
        context,
        Float32 { bits: F32_ZERO },
        listener,
        Ghost(v0),
        Ghost(s3),
    );
    let ghost s4 = s3.push(p4);
    let p5 = create_listener_param(
        context,
        Float32 { bits: F32_ZERO },
        listener,
        Ghost(v0),
        Ghost(s4),
    );
    let ghost s5 = s4.push(p5);
    let p6 = create_listener_param(
        context,
        Float32 { bits: F32_MINUS_ONE },
        listener,
        Ghost(v0),
        Ghost(s5),
    );
    let ghost s6 = s5.push(p6);
    let p7 = create_listener_param(
        context,
        Float32 { bits: F32_ZERO },
        listener,
        Ghost(v0),
        Ghost(s6),
    );
    let ghost s7 = s6.push(p7);
    let p8 = create_listener_param(
        context,
        Float32 { bits: F32_ONE },
        listener,
        Ghost(v0),
        Ghost(s7),
    );
    let ghost s8 = s7.push(p8);
    let p9 = create_listener_param(
        context,
        Float32 { bits: F32_ZERO },
        listener,
        Ghost(v0),
        Ghost(s8),
    );
    let ghost s9 = s8.push(p9);
    let fields = AudioListener {
        position_x: p1,
        position_y: p2,
        position_z: p3,
        forward_x: p4,
        forward_y: p5,
        forward_z: p6,
        up_x: p7,
        up_y: p8,
        up_z: p9,
    };
    assert(fields@ =~= s9);
    fields
}

/// The listener as a node of the audio graph.
///
/// This node has no input, but takes the position/orientation params and copies them into the 9
/// outputs. The outputs are connected to the panner nodes (via an audio param).
pub struct AudioListenerNode {
    registration: AudioContextRegistration,
    fields: AudioListener,
}

impl AudioListenerNode {
    /// The id of the listener in the audio graph.
    pub closed spec fn id(&self) -> AudioNodeId {
        self.registration.id
    }

    /// The params of the listener.
    pub closed spec fn params(&self) -> Seq<AudioParam> {
        self.fields@
    }

    /// Creates the listener of a context.
    pub fn new<P, H>(context: &mut ConcreteBaseAudioContext<P, H>) -> (r: Self)
        ensures
            r.params().len() == 9,
            forall|i: int| 0 <= i < 9 ==> (#[trigger] r.params()[i]).raw_parts == listener_param(i),
            final(context)@ == listener_created(
                BaseView { ids: final(context)@.ids, ..old(context)@ },
                param_ids(r.params()),
                r.id(),
            ),
            ids_taken(
                old(context)@.ids,
                seq![r.id()] + param_ids(r.params()),
                final(context)@.ids,
            ),
    {
        let ghost v0 = context@;
        let registration = context.new_registration();
        assert(stage(v0, context@, Seq::empty(), registration.id)) by {
            reveal(stage);
            assert(ids_taken(v0.ids, Seq::empty(), v0.ids));
            lemma_ids_taken_step(v0.ids, Seq::empty(), v0.ids, registration.id, context@.ids);
            assert(seq![registration.id] + param_ids(Seq::empty()) =~= Seq::empty().push(
                registration.id,
            ));
        }
        let fields = create_listener_params(context, &registration, Ghost(v0));
        let node = AudioListenerNode { registration, fields };
        proof {
            reveal(stage);
        }
        context.register_node(
            &node.registration,
            NodeProcessor::Listener,
            NodePorts {
                inputs: node.number_of_inputs(),
                outputs: node.number_of_outputs(),
                channel_config: node.channel_config(),
            },
        );
        node
    }

    /// Registration of the listener in the audio graph.
    pub fn registration(&self) -> (r: &AudioContextRegistration)
        ensures
            r.id == self.id(),
    {
        &self.registration
    }

    /// Channel settings, which are fixed.
    pub fn channel_config(&self) -> (r: ChannelConfig)
        ensures
            r == listener_ports_spec().channel_config,
    {
        ChannelConfig {
            channel_count: 1,
            channel_count_mode: ChannelCountMode::Explicit,
            channel_interpretation: ChannelInterpretation::Discrete,
        }
    }

    /// Number of input ports.
    pub fn number_of_inputs(&self) -> (r: usize)
        ensures
            r == listener_ports_spec().inputs,
    {
        0
    }

    /// Number of output ports: all params.
    pub fn number_of_outputs(&self) -> (r: usize)
        ensures
            r == listener_ports_spec().outputs,
    {
        9
    }

    /// The listener without its registration.
    pub fn into_fields(self) -> (r: AudioListener)
        ensures
            r@ == self.params(),
    {
        self.fields
    }
}

/// Renderer of the listener.
pub struct ListenerRenderer {}

impl ListenerRenderer {
    /// Renders one quantum: it does nothing, the listener is just here to make sure that its params
    /// render in order. The renderer must never be dropped, which a true result asks for.
    pub fn process(&mut self) -> (keep: bool)
        ensures
            keep,
            *final(self) == *old(self),
    {
        true
    }
}

} // verus!
