//! Collecting text that arrives in consecutive chunks, as printing hands it out.
use vstd::prelude::*;
use vstd::string::StringSliceAdditionalSpecFns;

verus! {

/// Collects UTF-8 text chunks, in order, for one printing call.
pub struct FormatterCallback {
    pub buffer: String,
}

impl FormatterCallback {
    pub fn new() -> (r: FormatterCallback)
        ensures
            r.buffer@.len() == 0,
    {
        FormatterCallback { buffer: String::new() }
    }

    /// Receive the next chunk.
    pub fn callback(&mut self, chunk: &str)
        ensures
            final(self).buffer@ == old(self).buffer@ + chunk@,
    {
        self.buffer.append(chunk);
    }

    /// Everything received, in order.
    pub fn user_data(self) -> (r: String)
        ensures
            r@ == self.buffer@,
    {
        self.buffer
    }
}

/// Collects the bytes of text chunks, in order, for one printing call; a byte sink
/// writes them out afterwards.
pub struct IoWriteFormatterCallback {
    pub bytes: Vec<u8>,
}

impl IoWriteFormatterCallback {
    pub fn new() -> (r: IoWriteFormatterCallback)
        ensures
            r.bytes@.len() == 0,
    {
        IoWriteFormatterCallback { bytes: Vec::new() }
    }

    /// Receive the next chunk: its UTF-8 bytes are appended.
    pub fn callback(&mut self, chunk: &str)
        ensures
            final(self).bytes@ == old(self).bytes@ + chunk.spec_bytes(),
    {
        let b = chunk.as_bytes();
        let ghost o = self.bytes@;
        let mut k: usize = 0;
        while k < b.len()
            invariant
                b@ == chunk.spec_bytes(),
                k <= b@.len(),
                self.bytes@ == o + b@.take(k as int),
            decreases b@.len() - k,
        {
            self.bytes.push(b[k]);
            assert(o + b@.take(k + 1) =~= (o + b@.take(k as int)).push(b@[k as int]));
            k = k + 1;
        }
        assert(b@.take(b@.len() as int) =~= b@);
    }

    /// Everything received, in order.
    pub fn user_data(self) -> (r: Vec<u8>)
        ensures
            r@ == self.bytes@,
    {
        self.bytes
    }
}

} // verus!
