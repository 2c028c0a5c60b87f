//! Bringing up the host's audio unit: which calls are made, in which order, and how a failed one
//! is cleaned up after.
use vstd::prelude::*;

verus! {

/// `auou`: an output component.
pub const UNIT_TYPE_OUTPUT: u32 = 0x6175_6f75;

/// `def `: the default output.
pub const UNIT_SUB_TYPE_DEFAULT_OUTPUT: u32 = 0x6465_6620;

/// `ahal`: a unit on a device of choice.
pub const UNIT_SUB_TYPE_HAL_OUTPUT: u32 = 0x6168_616c;

/// `appl`.
pub const UNIT_MANUFACTURER_APPLE: u32 = 0x6170_706c;

/// `lpcm`: plain samples.
pub const FORMAT_LINEAR_PCM: u32 = 0x6c70_636d;

/// Packed floating point samples.
pub const FORMAT_FLAGS: u32 = 1 | 8;

pub const PROPERTY_STREAM_FORMAT: u32 = 8;

pub const PROPERTY_SET_RENDER_CALLBACK: u32 = 23;

pub const PROPERTY_CURRENT_DEVICE: u32 = 2000;

pub const PROPERTY_ENABLE_IO: u32 = 2003;

pub const PROPERTY_SET_INPUT_CALLBACK: u32 = 2005;

pub const SCOPE_GLOBAL: u32 = 0;

pub const SCOPE_INPUT: u32 = 1;

pub const SCOPE_OUTPUT: u32 = 2;

/// The element that captured samples are read from.
pub const CAPTURE_INPUT_BUS: u32 = 1;

/// The only rate that the device offers.
pub const SAMPLE_RATE: u32 = 48_000;

/// What a bring-up fails with where the host has no such component.
pub const NOT_FOUND: i32 = -1;

/// A component to look for.
#[derive(Clone, Copy, PartialEq, Eq, Structural, Debug)]
pub struct ComponentDescription {
    pub component_type: u32,
    pub component_sub_type: u32,
    pub component_manufacturer: u32,
}

/// How the samples of a stream lie in memory.
#[derive(Clone, Copy, PartialEq, Eq, Structural, Debug)]
pub struct StreamFormat {
    pub sample_rate: u32,
    pub format_id: u32,
    pub format_flags: u32,
    pub bytes_per_packet: u32,
    pub frames_per_packet: u32,
    pub bytes_per_frame: u32,
    pub channels_per_frame: u32,
    pub bits_per_channel: u32,
}

/// What a property is set to.
#[derive(Clone, Copy, PartialEq, Eq, Structural, Debug)]
pub enum PropertyValue {
    Word(u32),
    Format(StreamFormat),
    /// The stream's own callback.
    Callback,
}

/// The next call.
#[derive(Clone, Copy, PartialEq, Eq, Structural, Debug)]
pub enum UnitCall {
    /// Look for a component. Not to find one counts as a failure.
    Find(ComponentDescription),
    /// Make a unit of the component that was found.
    Instantiate,
    SetProperty { id: u32, scope: u32, element: u32, value: PropertyValue },
    /// Ask for the default input device.
    DefaultInput,
    Initialize,
    /// Take the unit down again.
    Dispose,
}

#[derive(Clone, Copy, PartialEq, Eq, Structural, Debug)]
pub enum UnitDirection {
    Output,
    Input,
}

#[derive(Clone, Copy, PartialEq, Eq, Structural, Debug)]
enum Phase {
    Call(u8),
    Dispose(i32),
    Ready,
    Failed(i32),
}

/// A unit that is being brought up.
pub struct UnitSetup {
    direction: UnitDirection,
    channels: u8,
    device: u32,
    phase: Phase,
}

/// Where a bring-up is.
pub enum UnitPhase {
    /// So many calls went well.
    Call(nat),
    /// A call behind the making of the unit failed with this: the unit goes.
    Dispose(i32),
    Ready,
    Failed(i32),
}

pub struct UnitView {
    pub direction: UnitDirection,
    pub channels: u8,
    /// The default input device, once it is known.
    pub device: u32,
    pub phase: UnitPhase,
}

/// The stream's format on so many channels.
pub open spec fn format_of(channels: u8) -> StreamFormat {
    StreamFormat {
        sample_rate: SAMPLE_RATE,
        format_id: FORMAT_LINEAR_PCM,
        format_flags: FORMAT_FLAGS,
        bytes_per_packet: (4 * channels) as u32,
        frames_per_packet: 1,
        bytes_per_frame: (4 * channels) as u32,
        channels_per_frame: channels as u32,
        bits_per_channel: 32,
    }
}

/// The component for playback, or for capture.
pub open spec fn component_of(direction: UnitDirection) -> ComponentDescription {
    ComponentDescription {
        component_type: UNIT_TYPE_OUTPUT,
        component_sub_type: if direction == UnitDirection::Output {
            UNIT_SUB_TYPE_DEFAULT_OUTPUT
        } else {
            UNIT_SUB_TYPE_HAL_OUTPUT
        },
        component_manufacturer: UNIT_MANUFACTURER_APPLE,
    }
}

/// The calls of a bring-up that goes well. A capturing unit has its input switched on and its
/// output off, and is put on the default input device.
pub open spec fn calls(direction: UnitDirection, channels: u8, device: u32) -> Seq<UnitCall> {
    if direction == UnitDirection::Output {
        seq![
            UnitCall::Find(component_of(direction)),
            UnitCall::Instantiate,
            UnitCall::SetProperty {
                id: PROPERTY_STREAM_FORMAT,
                scope: SCOPE_INPUT,
                element: 0,
                value: PropertyValue::Format(format_of(channels)),
            },
            UnitCall::SetProperty {
                id: PROPERTY_SET_RENDER_CALLBACK,
                scope: SCOPE_INPUT,
                element: 0,
                value: PropertyValue::Callback,
            },
            UnitCall::Initialize,
        ]
    } else {
        seq![
            UnitCall::Find(component_of(direction)),
            UnitCall::Instantiate,
            UnitCall::SetProperty {
                id: PROPERTY_ENABLE_IO,
                scope: SCOPE_INPUT,
                element: 1,
                value: PropertyValue::Word(1),
            },
            UnitCall::SetProperty {
                id: PROPERTY_ENABLE_IO,
                scope: SCOPE_OUTPUT,
                element: 0,
                value: PropertyValue::Word(0),
            },
            UnitCall::DefaultInput,
            UnitCall::SetProperty {
                id: PROPERTY_CURRENT_DEVICE,
                scope: SCOPE_GLOBAL,
                element: 0,
                value: PropertyValue::Word(device),
            },
            UnitCall::SetProperty {
                id: PROPERTY_STREAM_FORMAT,
                scope: SCOPE_OUTPUT,
                element: CAPTURE_INPUT_BUS,
                value: PropertyValue::Format(format_of(channels)),
            },
            UnitCall::SetProperty {
                id: PROPERTY_SET_INPUT_CALLBACK,
                scope: SCOPE_GLOBAL,
                element: 0,
                value: PropertyValue::Callback,
            },
            UnitCall::Initialize,
        ]
    }
}

impl UnitView {
    pub open spec fn calls(self) -> Seq<UnitCall> {
        calls(self.direction, self.channels, self.device)
    }

    /// The call that is due.
    pub open spec fn due(self) -> Option<UnitCall> {
        match self.phase {
            UnitPhase::Call(i) => Some(self.calls()[i as int]),
            UnitPhase::Dispose(_) => Some(UnitCall::Dispose),
            _ => None,
        }
    }

    /// After the call that was due returned `status` (0 when it went well), with `value` for an
    /// answer. Only a unit that was made is disposed of, and what that returns changes nothing.
    pub open spec fn after(self, status: i32, value: u32) -> Self {
        match self.phase {
            UnitPhase::Call(i) => {
                if status != 0 {
                    UnitView {
                        phase: if i == 0 {
                            UnitPhase::Failed(NOT_FOUND)
                        } else if i == 1 {
                            UnitPhase::Failed(status)
                        } else {
                            UnitPhase::Dispose(status)
                        },
                        ..self
                    }
                } else {
                    UnitView {
                        device: if self.calls()[i as int] == UnitCall::DefaultInput {
                            value
                        } else {
                            self.device
                        },
                        phase: if i + 1 < self.calls().len() {
                            UnitPhase::Call((i + 1) as nat)
                        } else {
                            UnitPhase::Ready
                        },
                        ..self
                    }
                }
            },
            UnitPhase::Dispose(r) => UnitView { phase: UnitPhase::Failed(r), ..self },
            _ => self,
        }
    }

    /// After the calls returned these, one after another.
    pub open spec fn after_all(self, replies: Seq<(i32, u32)>) -> Self
        decreases replies.len(),
    {
        if replies.len() == 0 {
            self
        } else {
            self.after_all(replies.drop_last()).after(replies.last().0, replies.last().1)
        }
    }
}

impl View for UnitSetup {
    type V = UnitView;

    closed spec fn view(&self) -> UnitView {
        UnitView {
            direction: self.direction,
            channels: self.channels,
            device: self.device,
            phase: match self.phase {
                Phase::Call(i) => UnitPhase::Call(i as nat),
                Phase::Dispose(r) => UnitPhase::Dispose(r),
                Phase::Ready => UnitPhase::Ready,
                Phase::Failed(r) => UnitPhase::Failed(r),
            },
        }
    }
}

fn format(channels: u8) -> (r: StreamFormat)
    ensures
        r == format_of(channels),
{
    let bytes_per_frame: u32 = 4 * (channels as u32);
    StreamFormat {
        sample_rate: SAMPLE_RATE,
        format_id: FORMAT_LINEAR_PCM,
        format_flags: FORMAT_FLAGS,
        bytes_per_packet: bytes_per_frame,
        frames_per_packet: 1,
        bytes_per_frame,
        channels_per_frame: channels as u32,
        bits_per_channel: 32,
    }
}

impl UnitSetup {
    pub closed spec fn inv(self) -> bool {
        match self.phase {
            Phase::Call(i) => i < self@.calls().len(),
            _ => true,
        }
    }

    /// Starts to bring up a unit on so many channels.
    pub fn new(direction: UnitDirection, channels: u8) -> (r: Self)
        ensures
            r.inv(),
            r@ == (UnitView { direction, channels, device: 0, phase: UnitPhase::Call(0) }),
    {
        UnitSetup { direction, channels, device: 0, phase: Phase::Call(0) }
    }

    fn output_call(&self, i: u8) -> (r: UnitCall)
        requires
            i < 5,
            self.direction == UnitDirection::Output,
        ensures
            r == self@.calls()[i as int],
    {
        if i == 0 {
            UnitCall::Find(
                ComponentDescription {
                    component_type: UNIT_TYPE_OUTPUT,
                    component_sub_type: UNIT_SUB_TYPE_DEFAULT_OUTPUT,
                    component_manufacturer: UNIT_MANUFACTURER_APPLE,
                },
            )
        } else if i == 1 {
            UnitCall::Instantiate
        } else if i == 2 {
            UnitCall::SetProperty {
                id: PROPERTY_STREAM_FORMAT,
                scope: SCOPE_INPUT,
                element: 0,
                value: PropertyValue::Format(format(self.channels)),
            }
        } else if i == 3 {
            UnitCall::SetProperty {
                id: PROPERTY_SET_RENDER_CALLBACK,
                scope: SCOPE_INPUT,
                element: 0,
                value: PropertyValue::Callback,
            }
        } else {
            UnitCall::Initialize
        }
    }

    fn input_call(&self, i: u8) -> (r: UnitCall)
        requires
            i < 9,
            self.direction == UnitDirection::Input,
        ensures
            r == self@.calls()[i as int],
    {
        if i == 0 {
            UnitCall::Find(
                ComponentDescription {
                    component_type: UNIT_TYPE_OUTPUT,
                    component_sub_type: UNIT_SUB_TYPE_HAL_OUTPUT,
                    component_manufacturer: UNIT_MANUFACTURER_APPLE,
                },
            )
        } else if i == 1 {
            UnitCall::Instantiate
        } else if i == 2 {
            UnitCall::SetProperty {
                id: PROPERTY_ENABLE_IO,
                scope: SCOPE_INPUT,
                element: 1,
                value: PropertyValue::Word(1),
            }
        } else if i == 3 {
            UnitCall::SetProperty {
                id: PROPERTY_ENABLE_IO,
                scope: SCOPE_OUTPUT,
                element: 0,
                value: PropertyValue::Word(0),
            }
        } else if i == 4 {
            UnitCall::DefaultInput
        } else if i == 5 {
            UnitCall::SetProperty {
                id: PROPERTY_CURRENT_DEVICE,
                scope: SCOPE_GLOBAL,
                element: 0,
                value: PropertyValue::Word(self.device),
            }
        } else if i == 6 {
            UnitCall::SetProperty {
                id: PROPERTY_STREAM_FORMAT,
                scope: SCOPE_OUTPUT,
                element: CAPTURE_INPUT_BUS,
                value: PropertyValue::Format(format(self.channels)),
            }
        } else if i == 7 {
            UnitCall::SetProperty {
                id: PROPERTY_SET_INPUT_CALLBACK,
                scope: SCOPE_GLOBAL,
                element: 0,
                value: PropertyValue::Callback,
            }
        } else {
            UnitCall::Initialize
        }
    }

    /// The call to make next; none when the bring-up is over.
    pub fn due(&self) -> (r: Option<UnitCall>)
        requires
            self.inv(),
        ensures
            r == self@.due(),
    {
        match self.phase {
            Phase::Call(i) => match self.direction {
                UnitDirection::Output => Some(self.output_call(i)),
                UnitDirection::Input => Some(self.input_call(i)),
            },
            Phase::Dispose(_) => Some(UnitCall::Dispose),
            _ => None,
        }
    }

    /// Takes what the call that was due returned.
    pub fn advance(&mut self, status: i32, value: u32)
        requires
            old(self).inv(),
        ensures
            final(self).inv(),
            final(self)@ == old(self)@.after(status, value),
    {
        match self.phase {
            Phase::Call(i) => {
                if status != 0 {
                    self.phase = if i == 0 {
                        Phase::Failed(NOT_FOUND)
                    } else if i == 1 {
                        Phase::Failed(status)
                    } else {
                        Phase::Dispose(status)
                    };
                } else {
                    let last: u8 = match self.direction {
                        UnitDirection::Output => 4,
                        UnitDirection::Input => {
                            if i == 4 {
                                self.device = value;
                            }
                            8
                        },
                    };
                    self.phase = if i < last {
                        Phase::Call(i + 1)
                    } else {
                        Phase::Ready
                    };
                }
            },
            Phase::Dispose(r) => {
                self.phase = Phase::Failed(r);
            },
            _ => {},
        }
    }

    /// How the bring-up ended, once it has.
    pub fn outcome(&self) -> (r: Option<Result<(), i32>>)
        ensures
            r == match self@.phase {
                UnitPhase::Ready => Some(Ok(())),
                UnitPhase::Failed(s) => Some(Err(s)),
                _ => None,
            },
    {
        match self.phase {
            Phase::Ready => Some(Ok(())),
            Phase::Failed(s) => Some(Err(s)),
            _ => None,
        }
    }
}

/// A bring-up in which `replies` all say that the call went well.
pub open spec fn all_well(replies: Seq<(i32, u32)>) -> bool {
    forall|i: int| 0 <= i < replies.len() ==> (#[trigger] replies[i]).0 == 0
}

/// As long as every call goes well, the calls are made in their order, and the unit is ready
/// behind the last one and not before.
pub proof fn law_calls_in_order(v: UnitView, replies: Seq<(i32, u32)>)
    requires
        v.phase == UnitPhase::Call(0),
        all_well(replies),
        replies.len() <= v.calls().len(),
    ensures
        v.after_all(replies).direction == v.direction,
        v.after_all(replies).channels == v.channels,
        replies.len() < v.calls().len() ==> v.after_all(replies).phase == UnitPhase::Call(
            replies.len(),
        ),
        replies.len() == v.calls().len() ==> v.after_all(replies).phase == UnitPhase::Ready,
    decreases replies.len(),
{
    if replies.len() > 0 {
        let front = replies.drop_last();
        assert forall|i: int| 0 <= i < front.len() implies (#[trigger] front[i]).0 == 0 by {
            assert(front[i] == replies[i]);
        }
        law_calls_in_order(v, front);
        assert(replies.last() == replies[replies.len() - 1]);
    }
}

/// A bring-up that fails leaves no unit behind: a call that fails behind the making of the unit
/// is followed by disposing of it, and by nothing else. The failure that is reported is that of
/// the call, whatever disposing returns.
pub proof fn law_failure_leaves_no_unit(v: UnitView, i: nat, status: i32, value: u32, r: i32, x: u32)
    requires
        v.phase == UnitPhase::Call(i),
        i < v.calls().len(),
        status != 0,
    ensures
        i >= 2 ==> {
            &&& v.after(status, value).due() == Some(UnitCall::Dispose)
            &&& v.after(status, value).after(r, x).due() is None
            &&& v.after(status, value).after(r, x).phase == UnitPhase::Failed(status)
        },
        i < 2 ==> v.after(status, value).due() is None,
        i == 0 ==> v.after(status, value).phase == UnitPhase::Failed(NOT_FOUND),
        i == 1 ==> v.after(status, value).phase == UnitPhase::Failed(status),
{
}

} // verus!
