//! The hello panel: a tap counter and a note that survive reloads.

use vstd::prelude::*;

use crate::text::cat;
use crate::utf8::{decode_lossy, law_utf8_round_trip, lossy_text};

verus! {

pub struct Hello {
    pub count: u32,
    pub note: String,
    pub status: String,
}

/// A count as four bytes, the lowest first.
pub open spec fn count_bytes(n: u32) -> Seq<u8> {
    seq![
        (n % 256) as u8,
        (n / 256 % 256) as u8,
        (n / 65536 % 256) as u8,
        (n / 16777216) as u8,
    ]
}

/// The count four bytes stand for, the lowest first.
pub open spec fn count_of(b: Seq<u8>) -> int {
    b[0] + b[1] * 256 + b[2] * 65536 + b[3] * 16777216
}

/// What is kept across a reload: the count, then the note.
pub open spec fn kept(count: u32, note: Seq<char>) -> Seq<u8> {
    count_bytes(count) + vstd::utf8::encode_utf8(note)
}

/// What was kept is what is restored.
pub proof fn law_hello_restores(count: u32, note: Seq<char>)
    ensures
        kept(count, note).len() >= 4,
        count_of(kept(count, note)) == count,
        lossy_text(kept(count, note).skip(4)) == note,
{
    law_utf8_round_trip(note);
    assert(kept(count, note).skip(4) =~= vstd::utf8::encode_utf8(note));
}

/// One reply to reading the stored note.
pub enum Recall {
    Found(Vec<u8>),
    Missing,
    Failed(String),
}

impl Hello {
    pub fn new(host_name: &str) -> (r: Self)
        ensures
            r.count == 0,
            r.note@ == Seq::<char>::empty(),
            r.status@ == "created on host \""@ + host_name@ + "\""@,
    {
        let note = String::new();
        assert(note@ =~= Seq::<char>::empty());
        Hello { count: 0, note, status: cat(cat("created on host \"", host_name).as_str(), "\"") }
    }

    /// Count a tap.
    pub fn tap(&mut self)
        requires
            old(self).count < u32::MAX,
        ensures
            final(self).count == old(self).count + 1,
            final(self).note == old(self).note,
            final(self).status == old(self).status,
    {
        self.count = self.count + 1;
    }

    /// Tell what became of storing the note; `failure` says why it failed.
    pub fn persisted(&mut self, failure: Option<String>)
        ensures
            final(self).count == old(self).count,
            final(self).note == old(self).note,
            final(self).status@ == (match failure {
                Some(e) => "state.set failed: "@ + e@,
                None => "note persisted"@,
            }),
    {
        self.status = match failure {
            Some(e) => cat("state.set failed: ", e.as_str()),
            None => "note persisted".to_string(),
        };
    }

    /// Take the stored note, or tell why there is none.
    pub fn recalled(&mut self, reply: Recall)
        ensures
            final(self).count == old(self).count,
            match reply {
                Recall::Found(b) => final(self).note@ == lossy_text(b@) && final(self).status@
                    == "note recalled"@,
                Recall::Missing => final(self).note == old(self).note && final(self).status@
                    == "no note stored yet"@,
                Recall::Failed(e) => final(self).note == old(self).note && final(self).status@
                    == "state.get failed: "@ + e@,
            },
    {
        match reply {
            Recall::Found(b) => {
                self.note = decode_lossy(b.as_slice());
                self.status = "note recalled".to_string();
            },
            Recall::Missing => {
                self.status = "no note stored yet".to_string();
            },
            Recall::Failed(e) => {
                self.status = cat("state.get failed: ", e.as_str());
            },
        }
    }

    pub fn save_state(&self) -> (r: Vec<u8>)
        ensures
            r@ == kept(self.count, self.note@),
    {
        let n: u32 = self.count;
        let mut bytes: Vec<u8> = vec![
            (n % 256) as u8,
            (n / 256 % 256) as u8,
            (n / 65536 % 256) as u8,
            (n / 16777216) as u8,
        ];
        assert(bytes@ =~= count_bytes(n));
        let mut note = self.note.as_str().as_bytes_vec();
        bytes.append(&mut note);
        bytes
    }

    /// Restore what was kept; too few bytes change nothing.
    pub fn restore_state(&mut self, bytes: &[u8])
        ensures
            bytes@.len() < 4 ==> *final(self) == *old(self),
            bytes@.len() >= 4 ==> final(self).count == count_of(bytes@) && final(self).note@
                == lossy_text(bytes@.skip(4)) && final(self).status@
                == "state restored across hot reload"@,
    {
        if bytes.len() >= 4 {
            self.count = bytes[0] as u32 + bytes[1] as u32 * 256 + bytes[2] as u32 * 65536
                + bytes[3] as u32 * 16777216;
            let mut rest: Vec<u8> = Vec::new();
            let mut i: usize = 4;
            while i < bytes.len()
                invariant
                    4 <= i <= bytes@.len(),
                    rest@ =~= bytes@.subrange(4, i as int),
                decreases bytes@.len() - i,
            {
                rest.push(bytes[i]);
                i = i + 1;
            }
            assert(rest@ =~= bytes@.skip(4));
            self.note = decode_lossy(rest.as_slice());
            self.status = "state restored across hot reload".to_string();
        }
    }

    /// Tell of an event from the host.
    pub fn on_host_event(&mut self, topic: &str, payload: &[u8])
        ensures
            final(self).count == old(self).count,
            final(self).note == old(self).note,
            final(self).status@ == "host event "@ + topic@ + ": "@ + lossy_text(payload@),
    {
        let head = cat(cat("host event ", topic).as_str(), ": ");
        self.status = cat(head.as_str(), decode_lossy(payload).as_str());
    }
}

} // verus!
