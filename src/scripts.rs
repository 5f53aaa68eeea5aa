//! Rebuilding the script archive: replacement scripts first, then every existing
//! script that no replacement shadows.
use vstd::prelude::*;
use vstd::utf8::valid_utf8;

use crate::de::utf8_str;
use crate::dsarcfl::{
    archive_bytes, fits, name_field, name_of, padded, rest_of, valid_name, AccessView, Archive,
    ArchiveView, ArchiveWriter, EntryInfo, FileRecord, ReadError, WriteError, WriterView,
};

verus! {

/// Why the script archive could not be rebuilt.
#[derive(Clone, Copy, Debug, PartialEq, Eq, Structural)]
pub enum ScriptRepackError {
    /// An existing script's name is not UTF-8.
    InvalidSourceFileName,
    /// An existing script could not be reached.
    DsArcFlRead(ReadError),
    /// A script could not be added, or the archive could not be written.
    DsArcFlWrite(WriteError),
}

/// A script as it goes into the archive: its name and its bytes.
pub type Script = (Seq<u8>, Seq<u8>);

/// Whether some script in `es` is named `n`.
pub open spec fn has_name(es: Seq<Script>, n: Seq<u8>) -> bool {
    exists|j: int| 0 <= j < es.len() && (#[trigger] es[j]).0 == n
}

/// Why the writer refuses the name `n`, if it does.
pub open spec fn name_error(n: Seq<u8>) -> Option<WriteError> {
    if n.len() >= 0x74 {
        Some(WriteError::NameTooLong)
    } else if exists|i: int| 0 <= i < n.len() && n[i] == 0 {
        Some(WriteError::InvalidName)
    } else {
        None
    }
}

/// The replacements that go in, in order: the first script of each name.
pub open spec fn replacement_plan(reps: Seq<Script>) -> Result<Seq<Script>, ScriptRepackError>
    decreases reps.len(),
{
    if reps.len() == 0 {
        Ok(Seq::empty())
    } else {
        match replacement_plan(reps.drop_last()) {
            Err(e) => Err(e),
            Ok(p) => {
                let s = reps.last();
                if has_name(p, s.0) {
                    Ok(p)
                } else {
                    match name_error(s.0) {
                        Some(e) => Err(ScriptRepackError::DsArcFlWrite(e)),
                        None => Ok(p.push(s)),
                    }
                }
            },
        }
    }
}

/// The bytes of entry `e`: from its offset, as far as its size and the data reach.
pub open spec fn entry_contents(data: Seq<u8>, e: EntryInfo) -> Seq<u8> {
    rest_of(AccessView { name: Seq::empty(), size: e.size, offset: e.offset, data, pos: 0 })
}

/// Everything that goes in after the first `count` existing entries are visited.
pub open spec fn repack_plan(av: ArchiveView, reps: Seq<Script>, count: nat) -> Result<
    Seq<Script>,
    ScriptRepackError,
>
    decreases count,
{
    if count == 0 {
        replacement_plan(reps)
    } else {
        match repack_plan(av, reps, (count - 1) as nat) {
            Err(e) => Err(e),
            Ok(p) => {
                let e = av.entries[count - 1];
                if !valid_name(e.name_buf) {
                    Err(ScriptRepackError::DsArcFlRead(ReadError::InvalidName))
                } else if !valid_utf8(name_of(e.name_buf)) {
                    Err(ScriptRepackError::InvalidSourceFileName)
                } else if has_name(replacement_plan(reps).unwrap(), name_of(e.name_buf)) {
                    Ok(p)
                } else {
                    match name_error(name_of(e.name_buf)) {
                        Some(x) => Err(ScriptRepackError::DsArcFlWrite(x)),
                        None => Ok(p.push((name_of(e.name_buf), entry_contents(av.data, e)))),
                    }
                }
            },
        }
    }
}

/// The writer's state once the scripts `es` have been added in order.
pub open spec fn built(es: Seq<Script>) -> WriterView
    decreases es.len(),
{
    if es.len() == 0 {
        WriterView { files: Seq::empty(), buf: Seq::empty() }
    } else {
        let prev = built(es.drop_last());
        let s = es.last();
        WriterView {
            files: prev.files.push(
                FileRecord { name_field: name_field(s.0), off: prev.buf.len(), len: s.1.len() },
            ),
            buf: padded(prev.buf, s.1),
        }
    }
}

/// The rebuilt archive, or the first failure.
pub open spec fn repack_result(av: ArchiveView, reps: Seq<Script>) -> Result<
    Seq<u8>,
    ScriptRepackError,
> {
    match repack_plan(av, reps, av.entries.len()) {
        Err(e) => Err(e),
        Ok(p) => if fits(built(p)) {
            Ok(archive_bytes(built(p)))
        } else {
            Err(ScriptRepackError::DsArcFlWrite(WriteError::TooLarge))
        },
    }
}

/// The name a script source file takes in the archive: `<stem>.lua` becomes
/// `<stem>.lub`; `None` for a name that does not end in `.lua`.
pub fn compiled_name(file_name: &[u8]) -> (r: Option<Vec<u8>>)
    ensures
        file_name@.len() >= 4 && file_name@.skip(file_name@.len() - 4) == seq![
            0x2eu8,
            0x6c,
            0x75,
            0x61,
        ] ==> (r matches Some(n) && n@ == file_name@.take(file_name@.len() - 4) + seq![
            0x2eu8,
            0x6c,
            0x75,
            0x62,
        ]),
        !(file_name@.len() >= 4 && file_name@.skip(file_name@.len() - 4) == seq![
            0x2eu8,
            0x6c,
            0x75,
            0x61,
        ]) ==> r is None,
{
    let n = file_name.len();
    if n < 4 {
        return None;
    }
    let ghost suffix = seq![0x2eu8, 0x6c, 0x75, 0x61];
    if file_name[n - 4] != 0x2e || file_name[n - 3] != 0x6c || file_name[n - 2] != 0x75
        || file_name[n - 1] != 0x61 {
        proof {
            if file_name@.skip(n - 4) == suffix {
                assert(file_name@.skip(n - 4)[0] == file_name@[n - 4]);
                assert(file_name@.skip(n - 4)[1] == file_name@[n - 3]);
                assert(file_name@.skip(n - 4)[2] == file_name@[n - 2]);
                assert(file_name@.skip(n - 4)[3] == file_name@[n - 1]);
            }
        }
        return None;
    }
    assert(file_name@.skip(n - 4) =~= suffix);
    let mut out: Vec<u8> = Vec::new();
    let mut i: usize = 0;
    while i < n - 4
        invariant
            i <= n - 4,
            n == file_name@.len(),
            out@ == file_name@.take(i as int),
        decreases n - 4 - i,
    {
        out.push(file_name[i]);
        assert(out@ =~= file_name@.take(i + 1));
        i = i + 1;
    }
    out.push(0x2e);
    out.push(0x6c);
    out.push(0x75);
    out.push(0x62);
    assert(out@ =~= file_name@.take(n - 4) + seq![0x2eu8, 0x6c, 0x75, 0x62]);
    Some(out)
}

fn copy_bytes(a: &[u8]) -> (r: Vec<u8>)
    ensures
        r@ == a@,
{
    let mut out: Vec<u8> = Vec::new();
    let mut i: usize = 0;
    while i < a.len()
        invariant
            i <= a@.len(),
            out@ == a@.take(i as int),
        decreases a@.len() - i,
    {
        out.push(a[i]);
        assert(out@ =~= a@.take(i + 1));
        i = i + 1;
    }
    assert(a@.take(a@.len() as int) =~= a@);
    out
}

fn same_bytes(a: &[u8], b: &[u8]) -> (r: bool)
    ensures
        r == (a@ == b@),
{
    if a.len() != b.len() {
        return false;
    }
    let mut i: usize = 0;
    while i < a.len()
        invariant
            i <= a@.len() == b@.len(),
            forall|j: int| 0 <= j < i ==> a@[j] == b@[j],
        decreases a@.len() - i,
    {
        if a[i] != b[i] {
            return false;
        }
        i = i + 1;
    }
    assert(a@ =~= b@);
    true
}

/// Whether one of `names` is `n`.
fn contains_name(names: &Vec<Vec<u8>>, n: &[u8], plan: Ghost<Seq<Script>>) -> (r: bool)
    requires
        names@.len() == plan@.len(),
        forall|j: int| 0 <= j < names@.len() ==> (#[trigger] names@[j])@ == plan@[j].0,
    ensures
        r == has_name(plan@, n@),
{
    let mut i: usize = 0;
    while i < names.len()
        invariant
            i <= names@.len() == plan@.len(),
            forall|j: int| 0 <= j < names@.len() ==> (#[trigger] names@[j])@ == plan@[j].0,
            forall|j: int| 0 <= j < i ==> (#[trigger] plan@[j]).0 != n@,
        decreases names@.len() - i,
    {
        if same_bytes(names[i].as_slice(), n) {
            assert(plan@[i as int].0 == n@);
            return true;
        }
        i = i + 1;
    }
    false
}

/// Builds a new script archive: each replacement `(name, bytes)` in order,
/// skipping a name already added, then each existing script of `source`, in
/// order, whose name no replacement took.
pub fn repack_scripts(source: &mut Archive, replacements: &Vec<(Vec<u8>, Vec<u8>)>) -> (r: Result<
    Vec<u8>,
    ScriptRepackError,
>)
    ensures
        final(source)@ == old(source)@,
        match repack_result(
            old(source)@,
            replacements@.map_values(|s: (Vec<u8>, Vec<u8>)| (s.0@, s.1@)),
        ) {
            Ok(bytes) => r matches Ok(out) && out@ == bytes,
            Err(e) => r == Err::<Vec<u8>, ScriptRepackError>(e),
        },
{
    let ghost reps = replacements@.map_values(|s: (Vec<u8>, Vec<u8>)| (s.0@, s.1@));
    let ghost av = source@;
    let mut writer = ArchiveWriter::new();
    let mut used: Vec<Vec<u8>> = Vec::new();
    let ghost mut plan: Seq<Script> = Seq::empty();
    assert(writer@.files =~= built(plan).files);
    assert(writer@.buf =~= built(plan).buf);
    let mut i: usize = 0;
    while i < replacements.len()
        invariant
            i <= replacements@.len(),
            reps == replacements@.map_values(|s: (Vec<u8>, Vec<u8>)| (s.0@, s.1@)),
            av == source@,
            av == old(source)@,
            replacement_plan(reps.take(i as int)) == Ok::<Seq<Script>, ScriptRepackError>(plan),
            writer@ == built(plan),
            used@.len() == plan.len(),
            forall|j: int| 0 <= j < used@.len() ==> (#[trigger] used@[j])@ == plan[j].0,
        decreases replacements@.len() - i,
    {
        assert(reps.take(i + 1).drop_last() =~= reps.take(i as int));
        let name = &replacements[i].0;
        let data = &replacements[i].1;
        assert(reps.take(i + 1).last() == (name@, data@));
        if !contains_name(&used, name.as_slice(), Ghost(plan)) {
            let mut f = match writer.file(name.as_slice()) {
                Ok(f) => f,
                Err(e) => {
                    proof {
                        lemma_plan_err_reps(reps, i as int + 1);
                        lemma_plan_err_entries(av, reps, 0);
                    }
                    return Err(ScriptRepackError::DsArcFlWrite(e));
                },
            };
            f.write(data.as_slice());
            writer.add(f);
            let ghost old_plan = plan;
            proof {
                plan = plan.push((name@, data@));
                assert(plan.drop_last() =~= old_plan);
            }
            used.push(copy_bytes(name.as_slice()));
        }
        i = i + 1;
    }
    assert(reps.take(reps.len() as int) =~= reps);
    let ghost rep_plan = plan;
    let mut k: usize = 0;
    while k < source.len()
        invariant
            k <= av.entries.len(),
            av == source@,
            av == old(source)@,
            reps == replacements@.map_values(|s: (Vec<u8>, Vec<u8>)| (s.0@, s.1@)),
            replacement_plan(reps) == Ok::<Seq<Script>, ScriptRepackError>(rep_plan),
            repack_plan(av, reps, k as nat) == Ok::<Seq<Script>, ScriptRepackError>(plan),
            writer@ == built(plan),
            used@.len() == rep_plan.len(),
            forall|j: int| 0 <= j < used@.len() ==> (#[trigger] used@[j])@ == rep_plan[j].0,
        decreases av.entries.len() - k,
    {
        let ghost e = av.entries[k as int];
        let step: Result<(Vec<u8>, Option<Vec<u8>>), ScriptRepackError> = match source.get_file(
            k,
        ) {
            Some(Ok(mut access)) => {
                let name = copy_bytes(access.name());
                if utf8_str(name.as_slice()).is_none() {
                    Err(ScriptRepackError::InvalidSourceFileName)
                } else if contains_name(&used, name.as_slice(), Ghost(rep_plan)) {
                    Ok((name, None))
                } else {
                    let bytes = access.read_to_end();
                    assert(bytes@ == entry_contents(av.data, e));
                    Ok((name, Some(bytes)))
                }
            },
            Some(Err(x)) => Err(ScriptRepackError::DsArcFlRead(x)),
            None => Err(ScriptRepackError::DsArcFlRead(ReadError::InvalidName)),
        };
        assert(source@ == av);
        match step {
            Err(x) => {
                proof {
                    lemma_plan_err_entries(av, reps, k as nat + 1);
                }
                return Err(x);
            },
            Ok((_, None)) => {},
            Ok((name, Some(bytes))) => {
                let mut f = match writer.file(name.as_slice()) {
                    Ok(f) => f,
                    Err(x) => {
                        proof {
                            lemma_plan_err_entries(av, reps, k as nat + 1);
                        }
                        return Err(ScriptRepackError::DsArcFlWrite(x));
                    },
                };
                f.write(bytes.as_slice());
                writer.add(f);
                let ghost old_plan = plan;
                proof {
                    plan = plan.push((name@, bytes@));
                    assert(plan.drop_last() =~= old_plan);
                }
            },
        }
        k = k + 1;
    }
    match writer.finish() {
        Ok(out) => Ok(out),
        Err(x) => Err(ScriptRepackError::DsArcFlWrite(x)),
    }
}

pub proof fn lemma_plan_err_reps(reps: Seq<Script>, i: int)
    requires
        0 <= i <= reps.len(),
        replacement_plan(reps.take(i)) is Err,
    ensures
        replacement_plan(reps) == replacement_plan(reps.take(i)),
    decreases reps.len(),
{
    if i < reps.len() {
        assert(reps.drop_last().take(i) =~= reps.take(i));
        lemma_plan_err_reps(reps.drop_last(), i);
    } else {
        assert(reps.take(i) =~= reps);
    }
}

pub proof fn lemma_plan_err_entries(av: ArchiveView, reps: Seq<Script>, count: nat)
    requires
        count <= av.entries.len(),
        repack_plan(av, reps, count) is Err,
    ensures
        repack_plan(av, reps, av.entries.len()) == repack_plan(av, reps, count),
    decreases av.entries.len() - count,
{
    if count < av.entries.len() {
        lemma_plan_err_entries(av, reps, count + 1);
    }
}

} // verus!
