//! The capability gate: a profile can do what it declared and no more.

use crate::exec;
use crate::exec::{ErrorView, ExecError};
use crate::text;
use crate::text::{append_list, list_contains, same, Text};
use vstd::prelude::*;

verus! {

/// The capabilities a host implements.
///
/// `mount.volume_attach` is reserved: it may be declared, and no op uses
/// it yet.
pub const KNOWN_CAPABILITIES: [&'static str; 9] = [
    "env.ref",
    "sh.exec",
    "net.transfer",
    "net.http_get",
    "net.http_post",
    "fs.write",
    "mount.bind",
    "mount.umount",
    "mount.volume_attach",
];

/// Whether a host implements `capability`.
pub open spec fn is_known(capability: Text) -> bool {
    ||| capability == "env.ref"@
    ||| capability == "sh.exec"@
    ||| capability == "net.transfer"@
    ||| capability == "net.http_get"@
    ||| capability == "net.http_post"@
    ||| capability == "fs.write"@
    ||| capability == "mount.bind"@
    ||| capability == "mount.umount"@
    ||| capability == "mount.volume_attach"@
}

/// Whether a host implements `capability`.
fn known(capability: &str) -> (r: bool)
    ensures
        r == is_known(capability@),
{
    let mut i: usize = 0;
    while i < KNOWN_CAPABILITIES.len()
        invariant
            i <= 9,
            forall|j: int| 0 <= j < i ==> KNOWN_CAPABILITIES@[j]@ != capability@,
        decreases 9 - i,
    {
        if same(capability, KNOWN_CAPABILITIES[i]) {
            return true;
        }
        i = i + 1;
    }
    false
}

/// The first declared capability no host implements.
pub open spec fn first_unknown(declared: Seq<Text>) -> Option<Text>
    decreases declared.len(),
{
    if declared.len() == 0 {
        None
    } else if !is_known(declared[0]) {
        Some(declared[0])
    } else {
        first_unknown(declared.drop_first())
    }
}

/// Nothing unknown is found where every capability is known.
proof fn lemma_none_unknown(declared: Seq<Text>)
    requires
        forall|i: int| 0 <= i < declared.len() ==> is_known(#[trigger] declared[i]),
    ensures
        first_unknown(declared) is None,
    decreases declared.len(),
{
    if declared.len() > 0 {
        lemma_none_unknown(declared.drop_first());
    }
}

/// The first unknown capability is the one with only known ones before.
proof fn lemma_first_unknown(declared: Seq<Text>, at: int)
    requires
        0 <= at < declared.len(),
        !is_known(declared[at]),
        forall|i: int| 0 <= i < at ==> is_known(#[trigger] declared[i]),
    ensures
        first_unknown(declared) == Some(declared[at]),
    decreases at,
{
    if at > 0 {
        lemma_first_unknown(declared.drop_first(), at - 1);
    }
}

/// The capabilities a profile declared, all of them known.
#[derive(Debug)]
pub struct CapabilityGate {
    granted: Vec<String>,
}

impl CapabilityGate {
    /// The declared capabilities.
    pub closed spec fn granted(&self) -> Set<Text> {
        text::texts(self.granted@).to_set()
    }

    /// Whether `capability` passes, and what is said when it does not.
    pub open spec fn admits(&self, capability: Text) -> Result<(), ErrorView> {
        if self.granted().contains(capability) {
            Ok(())
        } else {
            Err(ErrorView::CapabilityDenied(capability))
        }
    }

    /// A gate for the declared capabilities. The first one that no
    /// host implements is refused; declaring none grants nothing.
    pub fn build(declared: &Vec<String>) -> (r: Result<Self, ExecError>)
        ensures
            match r {
                Ok(gate) => {
                    &&& first_unknown(text::texts(declared@)) is None
                    &&& gate.granted() == text::texts(declared@).to_set()
                },
                Err(error) => {
                    &&& first_unknown(text::texts(declared@)) is Some
                    &&& error@ == ErrorView::CapabilityUnknown(
                        first_unknown(text::texts(declared@))->0,
                    )
                },
            },
    {
        let mut i: usize = 0;
        while i < declared.len()
            invariant
                i <= declared@.len(),
                forall|j: int| 0 <= j < i ==> is_known(#[trigger] text::texts(declared@)[j]),
            decreases declared@.len() - i,
        {
            if !known(declared[i].as_str()) {
                proof {
                    lemma_first_unknown(text::texts(declared@), i as int);
                }
                return Err(ExecError::CapabilityUnknown(declared[i].clone()));
            }
            i = i + 1;
        }
        proof {
            lemma_none_unknown(text::texts(declared@));
        }
        let mut granted: Vec<String> = Vec::new();
        append_list(&mut granted, declared);
        assert(text::texts(granted@) =~= text::texts(declared@));
        Ok(CapabilityGate { granted })
    }

    /// Whether `capability` was declared.
    pub fn is_granted(&self, capability: &str) -> (r: bool)
        ensures
            r == self.granted().contains(capability@),
    {
        list_contains(&self.granted, capability)
    }

    /// The entry check of an op: an undeclared capability is refused.
    pub fn require(&self, capability: &str) -> (r: Result<(), ExecError>)
        ensures
            exec::unit_result(r) == self.admits(capability@),
            r is Ok <==> self.granted().contains(capability@),
    {
        if self.is_granted(capability) {
            Ok(())
        } else {
            Err(ExecError::CapabilityDenied(capability.to_owned()))
        }
    }
}

/// A profile whose declarations build a gate declared only what hosts
/// implement; one that declares anything else builds none.
pub proof fn law_a_gate_grants_known_capabilities_only(declared: Seq<Text>, capability: Text)
    ensures
        first_unknown(declared) is None ==> (declared.to_set().contains(capability) ==> is_known(
            capability,
        )),
        first_unknown(declared) matches Some(name) ==> declared.contains(name) && !is_known(name),
    decreases declared.len(),
{
    if declared.len() > 0 {
        let rest = declared.drop_first();
        law_a_gate_grants_known_capabilities_only(rest, capability);
        if is_known(declared[0]) {
            if first_unknown(declared) is None && declared.contains(capability) {
                let i = declared.index_of(capability);
                if i > 0 {
                    assert(rest[i - 1] == capability);
                }
            }
            if first_unknown(declared) is Some {
                let name = first_unknown(declared)->0;
                let i = rest.index_of(name);
                assert(declared[i + 1] == name);
            }
        } else {
            assert(declared.contains(declared[0]));
        }
    }
}

/// The capabilities a host implements are these nine and no other.
pub proof fn law_there_are_nine_capabilities(capability: Text)
    ensures
        is_known(capability) <==> seq![
            "env.ref"@,
            "sh.exec"@,
            "net.transfer"@,
            "net.http_get"@,
            "net.http_post"@,
            "fs.write"@,
            "mount.bind"@,
            "mount.umount"@,
            "mount.volume_attach"@,
        ].contains(capability),
        KNOWN_CAPABILITIES@.len() == 9,
        forall|i: int| 0 <= i < 9 ==> is_known(#[trigger] KNOWN_CAPABILITIES@[i]@),
{
    let all = seq![
        "env.ref"@,
        "sh.exec"@,
        "net.transfer"@,
        "net.http_get"@,
        "net.http_post"@,
        "fs.write"@,
        "mount.bind"@,
        "mount.umount"@,
        "mount.volume_attach"@,
    ];
    assert(all[0] == "env.ref"@);
    assert(all[1] == "sh.exec"@);
    assert(all[2] == "net.transfer"@);
    assert(all[3] == "net.http_get"@);
    assert(all[4] == "net.http_post"@);
    assert(all[5] == "fs.write"@);
    assert(all[6] == "mount.bind"@);
    assert(all[7] == "mount.umount"@);
    assert(all[8] == "mount.volume_attach"@);
}

/// A list of known capabilities builds a gate, and a list with an unknown
/// one builds none: the first unknown one is what is refused.
pub proof fn law_the_first_unknown_is_refused(declared: Seq<Text>, at: int)
    requires
        0 <= at <= declared.len(),
        forall|i: int| 0 <= i < at ==> is_known(#[trigger] declared[i]),
    ensures
        at == declared.len() ==> first_unknown(declared) is None,
        at < declared.len() && !is_known(declared[at]) ==> first_unknown(declared) == Some(
            declared[at],
        ),
{
    if at == declared.len() {
        lemma_none_unknown(declared);
    } else if !is_known(declared[at]) {
        lemma_first_unknown(declared, at);
    }
}

} // verus!
