//! The choice among registered codecs.
use vstd::prelude::*;

use crate::codec::decoder::DecoderDescriptor;
use crate::codec::encoder::EncoderDescriptor;
use crate::common::codec_id::CodecId;
use crate::common::text::same_text;

verus! {

/// A registered codec: the codec that it handles, its name and its priority.
pub struct Entry {
    pub codec_id: CodecId,
    pub name: Seq<char>,
    pub priority: int,
}

/// The registered decoders.
pub open spec fn decoder_entries(d: Seq<DecoderDescriptor>) -> Seq<Entry> {
    d.map_values(
        |x: DecoderDescriptor|
            Entry { codec_id: x.codec_id, name: x.name@, priority: x.priority as int },
    )
}

/// The registered encoders.
pub open spec fn encoder_entries(d: Seq<EncoderDescriptor>) -> Seq<Entry> {
    d.map_values(
        |x: EncoderDescriptor|
            Entry { codec_id: x.codec_id, name: x.name@, priority: x.priority as int },
    )
}

/// Whether entry `i` is the one to choose for a codec: no entry for that codec has a higher
/// priority, and none behind it the same.
pub open spec fn chosen(e: Seq<Entry>, id: CodecId, i: int) -> bool {
    &&& 0 <= i < e.len()
    &&& e[i].codec_id == id
    &&& forall|j: int|
        0 <= j < e.len() && (#[trigger] e[j]).codec_id == id ==> e[j].priority < e[i].priority || (
        e[j].priority == e[i].priority && j <= i)
}

/// Whether entry `i` is the first with a name.
pub open spec fn first_named(e: Seq<Entry>, name: Seq<char>, i: int) -> bool {
    &&& 0 <= i < e.len()
    &&& e[i].name == name
    &&& forall|j: int| 0 <= j < i ==> (#[trigger] e[j]).name != name
}

/// Only one entry is chosen for a codec.
pub proof fn law_one_is_chosen(e: Seq<Entry>, id: CodecId, i: int, j: int)
    requires
        chosen(e, id, i),
        chosen(e, id, j),
    ensures
        i == j,
{
    assert(e[i].codec_id == id && e[j].codec_id == id);
}

/// The place of the decoder of the highest priority for a codec; the last one where several share it.
pub fn find_decoder(registered: &[DecoderDescriptor], codec_id: CodecId) -> (r: Option<usize>)
    ensures
        match r {
            Some(i) => chosen(decoder_entries(registered@), codec_id, i as int),
            None => forall|i: int|
                0 <= i < registered@.len() ==> (#[trigger] decoder_entries(registered@)[i]).codec_id
                    != codec_id,
        },
{
    let ghost e = decoder_entries(registered@);
    let mut best: Option<usize> = None;
    let mut i: usize = 0;
    while i < registered.len()
        invariant
            i <= registered@.len(),
            e == decoder_entries(registered@),
            e.len() == registered@.len(),
            match best {
                Some(b) => b < i && e[b as int].codec_id == codec_id && forall|j: int|
                    0 <= j < i && (#[trigger] e[j]).codec_id == codec_id ==> e[j].priority
                        < e[b as int].priority || (e[j].priority == e[b as int].priority && j <= b),
                None => forall|j: int| 0 <= j < i ==> (#[trigger] e[j]).codec_id != codec_id,
            },
        decreases registered@.len() - i,
    {
        let entry = &registered[i];
        assert(e[i as int].codec_id == entry.codec_id && e[i as int].priority == entry.priority);
        if entry.codec_id == codec_id {
            let better = match best {
                Some(b) => registered[b].priority <= entry.priority,
                None => true,
            };
            if better {
                best = Some(i);
            }
        }
        i += 1;
    }
    best
}

/// The place of the first decoder of a name.
pub fn find_decoder_by_name(registered: &[DecoderDescriptor], name: &str) -> (r: Option<usize>)
    ensures
        match r {
            Some(i) => first_named(decoder_entries(registered@), name@, i as int),
            None => forall|i: int|
                0 <= i < registered@.len() ==> (#[trigger] decoder_entries(registered@)[i]).name
                    != name@,
        },
{
    let ghost e = decoder_entries(registered@);
    let mut i: usize = 0;
    while i < registered.len()
        invariant
            i <= registered@.len(),
            e == decoder_entries(registered@),
            e.len() == registered@.len(),
            forall|j: int| 0 <= j < i ==> (#[trigger] e[j]).name != name@,
        decreases registered@.len() - i,
    {
        assert(e[i as int].name == registered@[i as int].name@);
        if same_text(registered[i].name, name) {
            return Some(i);
        }
        i += 1;
    }
    None
}

/// The place of the encoder of the highest priority for a codec; the last one where several share it.
pub fn find_encoder(registered: &[EncoderDescriptor], codec_id: CodecId) -> (r: Option<usize>)
    ensures
        match r {
            Some(i) => chosen(encoder_entries(registered@), codec_id, i as int),
            None => forall|i: int|
                0 <= i < registered@.len() ==> (#[trigger] encoder_entries(registered@)[i]).codec_id
                    != codec_id,
        },
{
    let ghost e = encoder_entries(registered@);
    let mut best: Option<usize> = None;
    let mut i: usize = 0;
    while i < registered.len()
        invariant
            i <= registered@.len(),
            e == encoder_entries(registered@),
            e.len() == registered@.len(),
            match best {
                Some(b) => b < i && e[b as int].codec_id == codec_id && forall|j: int|
                    0 <= j < i && (#[trigger] e[j]).codec_id == codec_id ==> e[j].priority
                        < e[b as int].priority || (e[j].priority == e[b as int].priority && j <= b),
                None => forall|j: int| 0 <= j < i ==> (#[trigger] e[j]).codec_id != codec_id,
            },
        decreases registered@.len() - i,
    {
        let entry = &registered[i];
        assert(e[i as int].codec_id == entry.codec_id && e[i as int].priority == entry.priority);
        if entry.codec_id == codec_id {
            let better = match best {
                Some(b) => registered[b].priority <= entry.priority,
                None => true,
            };
            if better {
                best = Some(i);
            }
        }
        i += 1;
    }
    best
}

/// The place of the first encoder of a name.
pub fn find_encoder_by_name(registered: &[EncoderDescriptor], name: &str) -> (r: Option<usize>)
    ensures
        match r {
            Some(i) => first_named(encoder_entries(registered@), name@, i as int),
            None => forall|i: int|
                0 <= i < registered@.len() ==> (#[trigger] encoder_entries(registered@)[i]).name
                    != name@,
        },
{
    let ghost e = encoder_entries(registered@);
    let mut i: usize = 0;
    while i < registered.len()
        invariant
            i <= registered@.len(),
            e == encoder_entries(registered@),
            e.len() == registered@.len(),
            forall|j: int| 0 <= j < i ==> (#[trigger] e[j]).name != name@,
        decreases registered@.len() - i,
    {
        assert(e[i as int].name == registered@[i as int].name@);
        if same_text(registered[i].name, name) {
            return Some(i);
        }
        i += 1;
    }
    None
}

} // verus!
