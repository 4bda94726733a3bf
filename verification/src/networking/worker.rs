//! The description of a worker as the server knows it.
use vstd::prelude::*;
use vstd::string::StringExecFns;

verus! {

/// A worker: its name, the work load it accepts, and where it connects.
#[derive(Debug, Clone)]
pub struct Worker {
    pub name: String,
    pub maximal_work_load: u32,
    pub address: String,
    pub port: u16,
}

impl Worker {
    /// A worker with these fields.
    pub fn new(name: String, maximal_work_load: u32, address: String, port: u16) -> (w: Self)
        ensures
            w.name == name,
            w.maximal_work_load == maximal_work_load,
            w.address == address,
            w.port == port,
    {
        Self { name, maximal_work_load, address, port }
    }
}

/// A fresh random (version 4) UUID in its hyphenated text form
/// (`Uuid::new_v4().to_string()`): 36 characters, with hyphens at positions
/// 8, 13, 18 and 23; which hexadecimal digits come out is left open.
#[verifier::external_body]
fn random_uuid_text() -> (text: String)
    ensures
        text@.len() == 36,
        text@[8] == '-',
        text@[13] == '-',
        text@[18] == '-',
        text@[23] == '-',
{
    uuid::Uuid::new_v4().to_string()
}

/// The name given, or else `worker-` followed by a fresh random UUID in its
/// hyphenated form (hyphens at positions 15, 20, 25 and 30 of the name).
pub fn worker_name_or_generated(name: Option<String>) -> (n: String)
    ensures
        name matches Some(given) ==> n@ == given@,
        name is None ==> {
            &&& n@.len() == 43
            &&& n@.subrange(0, 7) == "worker-"@
            &&& n@[15] == '-'
            &&& n@[20] == '-'
            &&& n@[25] == '-'
            &&& n@[30] == '-'
        },
{
    match name {
        Some(given) => given,
        None => {
            let mut generated = "worker-".to_owned();
            let id = random_uuid_text();
            generated.append(id.as_str());
            proof {
                reveal_strlit("worker-");
                assert(generated@.subrange(0, 7) =~= "worker-"@);
                assert(generated@ == "worker-"@ + id@);
                assert(generated@[15] == id@[8]);
                assert(generated@[20] == id@[13]);
                assert(generated@[25] == id@[18]);
                assert(generated@[30] == id@[23]);
            }
            generated
        },
    }
}

} // verus!
