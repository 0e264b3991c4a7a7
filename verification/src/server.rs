//! The decisions of the script generator's server: which command a line of
//! input is, which request a message is, and the reassembly of messages
//! sent in chunks.
use vstd::prelude::*;

use crate::text::{chars_of, contains_seq, contains_vec, extend_vec, owned, replace_seq, replace_string, string_of, trim, trim_vec};

verus! {

/// Where the generated script goes: a session name in a folder.
#[derive(Debug)]
pub struct ScriptPath {
    pub session: String,
    pub folder: String,
}

impl ScriptPath {
    /// The default: `sample.tsp` in `C:\workfolder\`.
    pub fn new() -> (r: Self)
        ensures
            r.folder@ == "C:\\workfolder\\"@,
            r.session@ == "sample.tsp"@,
    {
        ScriptPath { folder: owned("C:\\workfolder\\"), session: owned("sample.tsp") }
    }

    /// The file name of the script: the session name with `.tsp` appended.
    pub fn file_name(&self) -> (r: String)
        ensures
            r@ == self.session@ + ".tsp"@,
    {
        let mut v = chars_of(self.session.as_str());
        extend_vec(&mut v, &chars_of(".tsp"));
        string_of(v.as_slice())
    }
}

/// A command read from standard input.
#[derive(Debug, Clone, Copy, PartialEq, Eq, Structural)]
pub enum StdinCommand {
    /// `shutdown`: stop the server.
    Shutdown,
    /// A work folder and session, as JSON.
    WorkFolder,
    /// A system configuration, as JSON.
    SystemConfig,
    /// The line frequency, as JSON.
    LineFrequency,
    /// The client asks for instrument data again.
    Refresh,
    /// Start a new sweep configuration.
    Reset,
    /// A saved configuration, as a request.
    SavedConfig,
    /// Anything else.
    Ignore,
}

/// The command a line of standard input is, judged on the line without
/// surrounding whitespace, by the first rule that applies.
pub open spec fn stdin_command(line: Seq<char>) -> StdinCommand {
    let t = trim(line);
    if t == "shutdown"@ {
        StdinCommand::Shutdown
    } else if contains_seq(t, "session"@) && contains_seq(t, "folder"@) {
        StdinCommand::WorkFolder
    } else if contains_seq(t, "systems"@) {
        StdinCommand::SystemConfig
    } else if contains_seq(t, "lineFrequency"@) {
        StdinCommand::LineFrequency
    } else if contains_seq(t, "refresh"@) {
        StdinCommand::Refresh
    } else if contains_seq(t, "reset"@) {
        StdinCommand::Reset
    } else if contains_seq(t, "request_type"@) {
        StdinCommand::SavedConfig
    } else {
        StdinCommand::Ignore
    }
}

/// The command a line of standard input is (see [`stdin_command`]).
pub fn classify_stdin_line(line: &str) -> (r: StdinCommand)
    ensures
        r == stdin_command(line@),
{
    let t = trim_vec(&chars_of(line));
    if crate::text::chars_eq(&t, &chars_of("shutdown")) {
        StdinCommand::Shutdown
    } else if contains_vec(&t, &chars_of("session")) && contains_vec(&t, &chars_of("folder")) {
        StdinCommand::WorkFolder
    } else if contains_vec(&t, &chars_of("systems")) {
        StdinCommand::SystemConfig
    } else if contains_vec(&t, &chars_of("lineFrequency")) {
        StdinCommand::LineFrequency
    } else if contains_vec(&t, &chars_of("refresh")) {
        StdinCommand::Refresh
    } else if contains_vec(&t, &chars_of("reset")) {
        StdinCommand::Reset
    } else if contains_vec(&t, &chars_of("request_type")) {
        StdinCommand::SavedConfig
    } else {
        StdinCommand::Ignore
    }
}

/// A request from the client.
#[derive(Debug, Clone, Copy, PartialEq, Eq, Structural)]
pub enum RequestKind {
    GetData,
    EvaluateData,
    Reallocation,
    OpenScript,
    Unknown,
}

/// The kind of a request, by its type.
pub open spec fn request_kind(request_type: Seq<char>) -> RequestKind {
    if request_type == "get_data"@ {
        RequestKind::GetData
    } else if request_type == "evaluate_data"@ {
        RequestKind::EvaluateData
    } else if request_type == "reallocation"@ {
        RequestKind::Reallocation
    } else if request_type == "open_script"@ {
        RequestKind::OpenScript
    } else {
        RequestKind::Unknown
    }
}

/// The kind of a request (see [`request_kind`]).
pub fn classify_request(request_type: &String) -> (r: RequestKind)
    ensures
        r == request_kind(request_type@),
{
    if *request_type == owned("get_data") {
        RequestKind::GetData
    } else if *request_type == owned("evaluate_data") {
        RequestKind::EvaluateData
    } else if *request_type == owned("reallocation") {
        RequestKind::Reallocation
    } else if *request_type == owned("open_script") {
        RequestKind::OpenScript
    } else {
        RequestKind::Unknown
    }
}

/// The chunks received so far of the messages sent in pieces.
#[derive(Debug)]
pub struct ChunkAssembler {
    buffers: Vec<(String, Vec<Option<String>>)>,
}

/// The chunk slots of message `id` in `bs`, if it has begun arriving.
pub open spec fn slots_of(bs: Seq<(String, Vec<Option<String>>)>, id: Seq<char>) -> Option<Seq<Option<String>>>
    decreases bs.len(),
{
    if bs.len() == 0 {
        None
    } else if bs.last().0@ == id {
        Some(bs.last().1@)
    } else {
        slots_of(bs.drop_last(), id)
    }
}

/// The text of all chunks, in order (each must have arrived).
pub open spec fn joined_chunks(slots: Seq<Option<String>>) -> Seq<char>
    decreases slots.len(),
{
    if slots.len() == 0 {
        Seq::empty()
    } else {
        joined_chunks(slots.drop_last()) + match slots.last() {
            Some(s) => s@,
            None => Seq::empty(),
        }
    }
}

/// No message id occurs twice.
pub open spec fn ids_distinct(bs: Seq<(String, Vec<Option<String>>)>) -> bool {
    forall|i: int, j: int| 0 <= i < j < bs.len() ==> bs[i].0@ != bs[j].0@
}

proof fn lemma_slots_absent(bs: Seq<(String, Vec<Option<String>>)>, id: Seq<char>)
    requires
        forall|i: int| 0 <= i < bs.len() ==> bs[i].0@ != id,
    ensures
        slots_of(bs, id) is None,
    decreases bs.len(),
{
    if bs.len() > 0 {
        lemma_slots_absent(bs.drop_last(), id);
    }
}

proof fn lemma_slots_at(bs: Seq<(String, Vec<Option<String>>)>, id: Seq<char>, i: int)
    requires
        ids_distinct(bs),
        0 <= i < bs.len(),
        bs[i].0@ == id,
    ensures
        slots_of(bs, id) == Some(bs[i].1@),
    decreases bs.len(),
{
    if i < bs.len() - 1 {
        assert(bs.last().0@ != id);
        lemma_slots_at(bs.drop_last(), id, i);
    }
}

/// The slots of message `id` once chunk `k` of `total` arrives with `data`.
pub open spec fn slots_after(
    pending: Option<Seq<Option<String>>>,
    total: nat,
    k: int,
    data: String,
) -> Seq<Option<String>> {
    let slots = match pending {
        Some(s) => s,
        None => Seq::new(total, |i: int| None::<String>),
    };
    slots.update(k, Some(data))
}

/// Chunks may arrive in any order: two chunks at different places leave the
/// same slots whichever of them comes first.
pub proof fn lemma_chunk_order(pending: Option<Seq<Option<String>>>, total: nat, i: int, di: String, j: int, dj: String)
    requires
        i != j,
        0 <= i < match pending {
            Some(s) => s.len(),
            None => total,
        },
        0 <= j < match pending {
            Some(s) => s.len(),
            None => total,
        },
    ensures
        slots_after(Some(slots_after(pending, total, i, di)), total, j, dj) == slots_after(
            Some(slots_after(pending, total, j, dj)),
            total,
            i,
            di,
        ),
{
    assert(slots_after(Some(slots_after(pending, total, i, di)), total, j, dj) =~= slots_after(
        Some(slots_after(pending, total, j, dj)),
        total,
        i,
        di,
    ));
}

/// Every chunk has arrived.
pub open spec fn all_arrived(slots: Seq<Option<String>>) -> bool {
    forall|k: int| 0 <= k < slots.len() ==> (#[trigger] slots[k]) is Some
}

proof fn lemma_slots_remove(bs: Seq<(String, Vec<Option<String>>)>, i: int, id: Seq<char>)
    requires
        ids_distinct(bs),
        0 <= i < bs.len(),
        bs[i].0@ != id,
    ensures
        slots_of(bs.remove(i), id) == slots_of(bs, id),
{
    let r = bs.remove(i);
    assert(ids_distinct(r)) by {
        assert forall|a: int, b: int| 0 <= a < b < r.len() implies r[a].0@ != r[b].0@ by {
            let a2 = if a < i { a } else { a + 1 };
            let b2 = if b < i { b } else { b + 1 };
            assert(r[a] == bs[a2]);
            assert(r[b] == bs[b2]);
        }
    }
    if exists|j: int| 0 <= j < bs.len() && bs[j].0@ == id {
        let j = choose|j: int| 0 <= j < bs.len() && bs[j].0@ == id;
        lemma_slots_at(bs, id, j);
        let j2 = if j < i { j } else { j - 1 };
        assert(r[j2] == bs[j]);
        lemma_slots_at(r, id, j2);
    } else {
        lemma_slots_absent(bs, id);
        assert forall|k: int| 0 <= k < r.len() implies r[k].0@ != id by {
            let k2 = if k < i { k } else { k + 1 };
            assert(r[k] == bs[k2]);
        }
        lemma_slots_absent(r, id);
    }
}

impl ChunkAssembler {
    #[verifier::type_invariant]
    spec fn inv(self) -> bool {
        ids_distinct(self.buffers@)
    }

    /// The slots of each message being received.
    pub closed spec fn pending(&self, id: Seq<char>) -> Option<Seq<Option<String>>> {
        slots_of(self.buffers@, id)
    }

    /// No message has begun arriving.
    pub fn new() -> (r: Self)
        ensures
            forall|id: Seq<char>| r.pending(id) is None,
    {
        ChunkAssembler { buffers: Vec::new() }
    }

    /// The number of chunks message `msg_id` is made of: as recorded when its
    /// first chunk came, or `total_chunks` for a new message.
    pub fn slot_count(&self, msg_id: &String, total_chunks: usize) -> (r: usize)
        ensures
            r == match self.pending(msg_id@) {
                Some(s) => s.len(),
                None => total_chunks as nat,
            },
    {
        match self.find(msg_id) {
            Some(i) => self.buffers[i].1.len(),
            None => total_chunks,
        }
    }


    /// Records chunk `chunk_index` of message `msg_id` (made of
    /// `total_chunks` chunks, as its first chunk says).  When every chunk has
    /// arrived, the message is complete: its chunks joined in order are
    /// returned and it is forgotten.
    pub fn add_chunk(&mut self, msg_id: &String, chunk_index: usize, total_chunks: usize, data: String) -> (r:
        Option<String>)
        requires
            chunk_index < match old(self).pending(msg_id@) {
                Some(s) => s.len(),
                None => total_chunks as nat,
            },
        ensures
            ({
                let slots = slots_after(old(self).pending(msg_id@), total_chunks as nat, chunk_index as int, data);
                if all_arrived(slots) {
                    r matches Some(m) && m@ == joined_chunks(slots) && final(self).pending(msg_id@) is None
                } else {
                    r is None && final(self).pending(msg_id@) == Some(slots)
                }
            }),
            forall|id: Seq<char>| id != msg_id@ ==> final(self).pending(id) == old(self).pending(id),
    {
        proof {
            use_type_invariant(&*self);
        }
        let ghost slots = slots_after(self.pending(msg_id@), total_chunks as nat, chunk_index as int, data);
        let ghost old_bufs = self.buffers@;
        let found = self.find(msg_id);
        let mut bufs: Vec<(String, Vec<Option<String>>)> = Vec::new();
        std::mem::swap(&mut bufs, &mut self.buffers);
        let mut entry: Vec<Option<String>> = match found {
            Some(i) => {
                let (_, v) = bufs.remove(i);
                assert(bufs@ == old_bufs.remove(i as int));
                v
            },
            None => {
                let mut v: Vec<Option<String>> = Vec::new();
                let mut k: usize = 0;
                while k < total_chunks
                    invariant
                        k <= total_chunks,
                        v@ == Seq::new(k as nat, |i: int| None::<String>),
                    decreases total_chunks - k,
                {
                    v.push(None);
                    k = k + 1;
                    assert(v@ =~= Seq::new(k as nat, |i: int| None::<String>));
                }
                v
            },
        };
        entry.set(chunk_index, Some(data));
        assert(entry@ == slots);
        proof {
            assert forall|id: Seq<char>| id != msg_id@ implies slots_of(bufs@, id) == slots_of(old_bufs, id) by {
                if bufs@.len() < old_bufs.len() {
                    let i = choose|i: int| 0 <= i < old_bufs.len() && old_bufs[i].0@ == msg_id@ && bufs@ == old_bufs.remove(i);
                    lemma_slots_remove(old_bufs, i, id);
                }
            }
            assert forall|j: int| 0 <= j < bufs@.len() implies bufs@[j].0@ != msg_id@ by {
                if bufs@.len() < old_bufs.len() {
                    let i = choose|i: int| 0 <= i < old_bufs.len() && old_bufs[i].0@ == msg_id@ && bufs@ == old_bufs.remove(i);
                    if j < i {
                        assert(bufs@[j] == old_bufs[j]);
                    } else {
                        assert(bufs@[j] == old_bufs[j + 1]);
                    }
                } else {
                    assert(bufs@ == old_bufs);
                    if bufs@[j].0@ == msg_id@ {
                        lemma_slots_at(old_bufs, msg_id@, j);
                    }
                }
            }
        }
        let mut complete = true;
        let mut i: usize = 0;
        while i < entry.len()
            invariant
                i <= entry@.len(),
                complete == (forall|k: int| 0 <= k < i ==> (#[trigger] entry@[k]) is Some),
            decreases entry.len() - i,
        {
            if entry[i].is_none() {
                complete = false;
            }
            i = i + 1;
        }
        if complete {
            proof {
                lemma_slots_absent(bufs@, msg_id@);
            }
            let mut text: Vec<char> = Vec::new();
            let mut j: usize = 0;
            while j < entry.len()
                invariant
                    j <= entry@.len(),
                    text@ == joined_chunks(entry@.take(j as int)),
                decreases entry.len() - j,
            {
                match &entry[j] {
                    Some(s) => extend_vec(&mut text, &chars_of(s.as_str())),
                    None => {},
                }
                assert(entry@.take(j + 1).drop_last() =~= entry@.take(j as int));
                j = j + 1;
            }
            assert(entry@.take(j as int) =~= entry@);
            self.buffers = bufs;
            Some(string_of(text.as_slice()))
        } else {
            let ghost before = bufs@;
            bufs.push((msg_id.clone(), entry));
            proof {
                assert(bufs@.drop_last() =~= before);
                assert forall|id: Seq<char>| id != msg_id@ implies slots_of(bufs@, id) == slots_of(before, id) by {
                }
                assert forall|a: int, b: int| 0 <= a < b < bufs@.len() implies bufs@[a].0@ != bufs@[b].0@ by {
                    if b == bufs@.len() - 1 {
                        assert(bufs@[a] == before[a]);
                    } else {
                        assert(bufs@[a] == before[a]);
                        assert(bufs@[b] == before[b]);
                    }
                }
            }
            self.buffers = bufs;
            None
        }
    }

    fn find(&self, msg_id: &String) -> (r: Option<usize>)
        ensures
            r matches Some(i) ==> i < self.buffers@.len() && self.buffers@[i as int].0@ == msg_id@ && self.pending(msg_id@)
                == Some(self.buffers@[i as int].1@),
            r is None ==> self.pending(msg_id@) is None,
    {
        let mut i = self.buffers.len();
        assert(self.buffers@.take(i as int) =~= self.buffers@);
        while i > 0
            invariant
                i <= self.buffers@.len(),
                slots_of(self.buffers@, msg_id@) == slots_of(self.buffers@.take(i as int), msg_id@),
                forall|j: int| i <= j < self.buffers@.len() ==> self.buffers@[j].0@ != msg_id@,
            decreases i,
        {
            assert(self.buffers@.take(i as int).drop_last() =~= self.buffers@.take(i - 1));
            if self.buffers[i - 1].0 == *msg_id {
                return Some(i - 1);
            }
            i = i - 1;
        }
        assert(self.buffers@.take(0) =~= Seq::<(String, Vec<Option<String>>)>::empty());
        None
    }
}

/// The address the server is reached at.
pub const BASE_URL: &'static str = "http://127.0.0.1:27950";

/// The page `html` with its resource links (`src="` and `href="`) made
/// absolute under `base`.
pub open spec fn rewritten_page(html: Seq<char>, base: Seq<char>) -> Seq<char> {
    let a = replace_seq(html, "src=\""@, "src=\""@ + base + "/"@);
    replace_seq(a, "href=\""@, "href=\""@ + base + "/"@)
}

/// Makes the resource links of the page `html` absolute under `base_url`
/// (see [`rewritten_page`]).
pub fn rewrite_resource_urls(html: &String, base_url: &str) -> (r: String)
    ensures
        r@ == rewritten_page(html@, base_url@),
{
    let mut src_to = chars_of("src=\"");
    extend_vec(&mut src_to, &chars_of(base_url));
    src_to.push('/');
    let mut href_to = chars_of("href=\"");
    extend_vec(&mut href_to, &chars_of(base_url));
    href_to.push('/');
    let src_to = string_of(src_to.as_slice());
    let href_to = string_of(href_to.as_slice());
    proof {
        reveal_strlit("/");
    }
    assert(src_to@ =~= "src=\""@ + base_url@ + "/"@);
    assert(href_to@ =~= "href=\""@ + base_url@ + "/"@);
    let a = replace_string(html, &owned("src=\""), &src_to);
    replace_string(&a, &owned("href=\""), &href_to)
}

} // verus!
