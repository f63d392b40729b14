//! The frames in which messages go out: a message for a named socket has that name before it.
use vstd::prelude::*;
use vstd::string::*;

verus! {

/// A frame as the contracts see it.
#[verifier::ext_equal]
pub struct FrameModel {
    pub bytes: Seq<u8>,
    /// Whether the message goes on with another frame.
    pub more: bool,
}

/// The bytes of the name of a destination.
pub open spec fn name_bytes(destination: Option<Seq<char>>) -> Option<Seq<u8>> {
    match destination {
        Some(name) => Some(vstd::utf8::encode_utf8(name)),
        None => None,
    }
}

/// The frames of a message: the destination, if there is one, and the message itself.
pub open spec fn frames_of(destination: Option<Seq<u8>>, message: Seq<u8>) -> Seq<FrameModel> {
    match destination {
        Some(name) => seq![
            FrameModel { bytes: name, more: true },
            FrameModel { bytes: message, more: false },
        ],
        None => seq![FrameModel { bytes: message, more: false }],
    }
}

/// The frames of several messages, one message after the other.
pub open spec fn all_frames(destination: Option<Seq<u8>>, messages: Seq<Seq<u8>>) -> Seq<FrameModel>
    decreases messages.len(),
{
    if messages.len() == 0 {
        Seq::empty()
    } else {
        all_frames(destination, messages.drop_last()) + frames_of(destination, messages.last())
    }
}

/// The frames that end a message, without all others.
pub open spec fn last_frames(frames: Seq<FrameModel>) -> Seq<Seq<u8>>
    decreases frames.len(),
{
    if frames.len() == 0 {
        Seq::empty()
    } else {
        let earlier = last_frames(frames.drop_last());
        if frames.last().more {
            earlier
        } else {
            earlier.push(frames.last().bytes)
        }
    }
}

/// A frame to be sent.
#[derive(Debug, Clone, Copy)]
pub struct Frame<'a> {
    pub bytes: &'a [u8],
    /// Whether the message goes on with another frame.
    pub more: bool,
}

impl<'a> View for Frame<'a> {
    type V = FrameModel;

    open spec fn view(&self) -> FrameModel {
        FrameModel { bytes: self.bytes@, more: self.more }
    }
}

/// How the messages of a sender are framed.
#[derive(Debug)]
pub struct Framing {
    destination: Option<Vec<u8>>,
}

impl View for Framing {
    type V = Option<Seq<u8>>;

    closed spec fn view(&self) -> Option<Seq<u8>> {
        match self.destination {
            Some(name) => Some(name@),
            None => None,
        }
    }
}

impl Framing {
    /// The framing of messages for `destination`, or for whoever is connected where there is none.
    pub fn new(destination: &Option<String>) -> (r: Framing)
        ensures
            r@ == name_bytes(crate::plans::text_of(*destination)),
    {
        match destination {
            Some(name) => Framing { destination: Some(name.as_str().as_bytes_vec()) },
            None => Framing { destination: None },
        }
    }

    /// How many frames each message has.
    pub fn count(&self) -> (r: usize)
        ensures
            forall|message: Seq<u8>| r == #[trigger] frames_of(self@, message).len(),
    {
        match self.destination {
            Some(_) => 2,
            None => 1,
        }
    }

    /// Frame number `index` of a message.
    pub fn frame<'a>(&'a self, message: &'a [u8], index: usize) -> (r: Frame<'a>)
        requires
            index < frames_of(self@, message@).len(),
        ensures
            r@ == frames_of(self@, message@)[index as int],
    {
        match &self.destination {
            Some(name) => if index == 0 {
                Frame { bytes: name.as_slice(), more: true }
            } else {
                Frame { bytes: message, more: false }
            },
            None => Frame { bytes: message, more: false },
        }
    }
}

proof fn lemma_last_frames_concat(a: Seq<FrameModel>, b: Seq<FrameModel>)
    ensures
        last_frames(a + b) == last_frames(a) + last_frames(b),
    decreases b.len(),
{
    if b.len() == 0 {
        assert(a + b =~= a);
    } else {
        assert((a + b).drop_last() =~= a + b.drop_last());
        lemma_last_frames_concat(a, b.drop_last());
    }
}

/// Framing loses nothing and adds no message: without the destinations the frames are the messages
/// themselves, in their order, whatever the destination is.
pub proof fn frames_carry_the_messages(destination: Option<Seq<u8>>, messages: Seq<Seq<u8>>)
    ensures
        last_frames(all_frames(destination, messages)) == messages,
        all_frames(destination, messages).len() == messages.len() * if destination is Some {
            2int
        } else {
            1int
        },
    decreases messages.len(),
{
    if messages.len() > 0 {
        let earlier = messages.drop_last();
        frames_carry_the_messages(destination, earlier);
        let own = frames_of(destination, messages.last());
        lemma_last_frames_concat(all_frames(destination, earlier), own);
        reveal_with_fuel(last_frames, 3);
        assert(last_frames(own) =~= seq![messages.last()]);
        assert(messages =~= earlier + seq![messages.last()]);
    }
}

/// Each message for a named socket goes out as two frames, the name first, and each other message
/// as a single frame.
pub proof fn destination_leads_each_message(
    destination: Option<Seq<u8>>,
    messages: Seq<Seq<u8>>,
    i: int,
)
    requires
        0 <= i < messages.len(),
    ensures
        destination is None ==> all_frames(destination, messages)[i] == (FrameModel {
            bytes: messages[i],
            more: false,
        }),
        destination is Some ==> all_frames(destination, messages)[2 * i] == (FrameModel {
            bytes: destination->0,
            more: true,
        }),
        destination is Some ==> all_frames(destination, messages)[2 * i + 1] == (FrameModel {
            bytes: messages[i],
            more: false,
        }),
    decreases messages.len(),
{
    let earlier = messages.drop_last();
    frames_carry_the_messages(destination, earlier);
    if i < earlier.len() {
        destination_leads_each_message(destination, earlier, i);
    }
}

/// What a finished sender has put on the wire for a named socket are the messages that it would
/// have sent without a name, each behind one frame with the name: two frames for each message of
/// its greeting, for the begin marker and for each benchmark message.
pub proof fn addressed_sender_sends_the_same(
    config: crate::sender::SenderConfig,
    payload_size: nat,
    events: Seq<crate::sender::SenderEvent>,
    name: Seq<u8>,
)
    requires
        config.valid_for(payload_size),
        config.initial(payload_size).expects_all(events),
        config.initial(payload_size).after_all(events).stage
            == crate::sender::SenderStage::Finished,
    ensures
        ({
            let body = Seq::new(payload_size, |i: int| 0u8);
            let wire = config.initial(payload_size).transcript(events);
            let addressed = all_frames(Some(name), wire);
            &&& last_frames(addressed) == last_frames(all_frames(None, wire))
            &&& last_frames(addressed) == crate::sender::preamble(config, body, events)
                + crate::sender::data_messages(body, crate::sender::clock_readings(events))
            &&& addressed.len() == 2 * (crate::sender::preamble(config, body, events).len()
                + config.num_messages)
            &&& forall|i: int|
                0 <= i < wire.len() ==> addressed[2 * i] == (FrameModel { bytes: name, more: true })
                    && addressed[2 * i + 1] == (FrameModel {
                    bytes: #[trigger] wire[i],
                    more: false,
                })
        }),
{
    let wire = config.initial(payload_size).transcript(events);
    crate::sender::finished_sender_has_sent_everything(config, payload_size, events);
    frames_carry_the_messages(Some(name), wire);
    frames_carry_the_messages(None, wire);
    assert forall|i: int| 0 <= i < wire.len() implies all_frames(Some(name), wire)[2 * i] == (
    FrameModel { bytes: name, more: true }) && all_frames(Some(name), wire)[2 * i + 1] == (
    FrameModel { bytes: #[trigger] wire[i], more: false }) by {
        destination_leads_each_message(Some(name), wire, i);
    }
}

/// A message for a named socket is led by the bytes of that name, and by nothing where there is no
/// name; a further message adds its own frames behind all others.
pub proof fn frames_follow_the_messages(
    name: Seq<char>,
    destination: Option<Seq<u8>>,
    messages: Seq<Seq<u8>>,
    next: Seq<u8>,
)
    ensures
        name_bytes(Some(name)) == Some(vstd::utf8::encode_utf8(name)),
        name_bytes(None) is None,
        all_frames(destination, messages.push(next)) == all_frames(destination, messages)
            + frames_of(destination, next),
        frames_of(destination, next).last() == (FrameModel { bytes: next, more: false }),
        frames_of(destination, next).len() == if destination is Some {
            2
        } else {
            1nat
        },
        destination is Some ==> frames_of(destination, next)[0] == (FrameModel {
            bytes: destination->0,
            more: true,
        }),
{
    assert(messages.push(next).drop_last() =~= messages);
}

} // verus!
