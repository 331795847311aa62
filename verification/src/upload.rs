//! The deploy-stream writer's logic: chunked uploads are concatenated under
//! the name pinned by the first chunk; writing the part-file and the atomic
//! rename are the caller's I/O.

use vstd::prelude::*;

verus! {

/// An upload in progress: the name the first chunk pinned, and the bytes
/// received so far.
pub struct UploadBuffer {
    pub name: Option<String>,
    pub data: Vec<u8>,
}

impl UploadBuffer {
    /// An upload with nothing received yet.
    pub fn new() -> (r: UploadBuffer)
        ensures
            r.name is None,
            r.data@.len() == 0,
    {
        UploadBuffer { name: None, data: Vec::new() }
    }

    /// Takes one chunk: the first chunk pins the upload's name, later
    /// chunk names are ignored; the body is appended to the bytes received.
    pub fn push_chunk(&mut self, chunk_name: &String, body: &Vec<u8>)
        ensures
            old(self).name is None ==> (final(self).name matches Some(n) && n@ == chunk_name@),
            old(self).name is Some ==> final(self).name == old(self).name,
            final(self).data@ == old(self).data@ + body@,
    {
        if self.name.is_none() {
            self.name = Some(chunk_name.clone());
        }
        let ghost pinned = self.name;
        let mut i: usize = 0;
        while i < body.len()
            invariant
                i <= body@.len(),
                self.data@ == old(self).data@ + body@.take(i as int),
                self.name == pinned,
            decreases body@.len() - i,
        {
            self.data.push(body[i]);
            proof {
                assert(old(self).data@ + body@.take(i + 1) =~= (old(self).data@ + body@.take(
                    i as int,
                )).push(body@[i as int]));
            }
            i += 1;
        }
        proof {
            assert(body@.take(body@.len() as int) =~= body@);
        }
    }

    /// Ends the stream cleanly: the pinned name and the concatenated bytes,
    /// or `None` when no chunk ever arrived (the caller then deletes any
    /// partial file and creates no record).
    pub fn finish(self) -> (r: Option<(String, Vec<u8>)>)
        ensures
            r is Some <==> self.name is Some,
            r matches Some(p) ==> p.0@ == self.name.unwrap()@ && p.1@ == self.data@,
    {
        match self.name {
            Some(name) => Some((name, self.data)),
            None => None,
        }
    }
}

/// The temporary file an upload is written to before the stream ends:
/// `<name>.wasm.part`.
pub fn part_file_name(name: &str) -> (r: String)
    ensures
        r@ == name@ + ".wasm.part"@,
{
    let mut out = String::from_str(name);
    out.append(".wasm.part");
    out
}

/// The canonical file an upload is renamed to on clean completion:
/// `<name>.wasm`.
pub fn module_file_name(name: &str) -> (r: String)
    ensures
        r@ == name@ + ".wasm"@,
{
    let mut out = String::from_str(name);
    out.append(".wasm");
    out
}

} // verus!
