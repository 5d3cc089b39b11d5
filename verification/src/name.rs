//! Names of shared-memory segments.

use crate::error::ArenaError;
use vstd::prelude::*;
use vstd::string::StringExecFns;

verus! {

/// The name of a segment in the form that `shm_open` takes: it starts with a
/// slash and holds no NUL character.
#[derive(Debug)]
pub struct ShmName {
    text: String,
}

/// The name under which a segment called `name` is opened: a slash is put in
/// front where there is none.
pub open spec fn normalized(name: Seq<char>) -> Seq<char> {
    if name.len() > 0 && name[0] == '/' {
        name
    } else {
        seq!['/'] + name
    }
}

impl View for ShmName {
    type V = Seq<char>;

    closed spec fn view(&self) -> Seq<char> {
        self.text@
    }
}

impl ShmName {
    /// What every name satisfies.
    #[verifier::type_invariant]
    pub open spec fn wf(&self) -> bool {
        &&& self@.len() > 0
        &&& self@[0] == '/'
        &&& !self@.contains('\0')
    }

    /// The text of the name.
    pub fn as_str(&self) -> (text: &str)
        ensures
            text@ == self@,
            self.wf(),
    {
        proof {
            use_type_invariant(self);
        }
        self.text.as_str()
    }
}

impl Clone for ShmName {
    fn clone(&self) -> (name: ShmName)
        ensures
            name@ == self@,
    {
        proof {
            use_type_invariant(self);
        }
        ShmName { text: self.text.clone() }
    }
}

/// Makes the segment name for `name`, or refuses a name that holds a NUL character.
pub fn to_shm_name(name: &str) -> (r: Result<ShmName, ArenaError>)
    ensures
        name@.contains('\0') ==> r == Err::<ShmName, ArenaError>(ArenaError::InvalidName),
        !name@.contains('\0') ==> r is Ok && r->Ok_0@ == normalized(name@),
{
    let mut slash: bool = false;
    let mut first: bool = true;
    for c in it: name.chars()
        invariant
            it.seq() == name@,
            first == (it.index() == 0),
            slash == (it.index() > 0 && name@[0] == '/'),
            forall|i: int| 0 <= i < it.index() ==> name@[i] != '\0',
    {
        if c == '\0' {
            assert(name@[it.index() as int] == '\0');
            return Err(ArenaError::InvalidName);
        }
        if first {
            slash = c == '/';
            first = false;
        }
    }
    let text: String = if slash {
        String::from_str(name)
    } else {
        proof {
            reveal_strlit("/");
        }
        String::from_str("/").concat(name)
    };
    assert(text@ == normalized(name@));
    Ok(ShmName { text })
}

/// A segment name is the name that was asked for, behind one slash: a name that
/// starts with a slash is kept, and any other is kept whole after the slash. A name
/// is refused exactly where it holds a NUL character.
pub proof fn law_name_is_kept_behind_a_slash(name: &str, r: Result<ShmName, ArenaError>)
    requires
        call_ensures(to_shm_name, (name,), r),
    ensures
        r is Err <==> name@.contains('\0'),
        r matches Err(error) ==> error == ArenaError::InvalidName,
        r matches Ok(kept) ==> {
            &&& kept@.len() > 0
            &&& kept@[0] == '/'
            &&& name@.len() > 0 && name@[0] == '/' ==> kept@ == name@
            &&& name@.len() == 0 || name@[0] != '/' ==> kept@.skip(1) == name@
        },
{
    let plain = seq!['/'] + name@;
    assert(plain.skip(1) =~= name@);
}

/// A name that already has the form that `shm_open` takes is kept.
pub proof fn law_normalizing_twice_changes_nothing(name: Seq<char>)
    ensures
        normalized(normalized(name)) == normalized(name),
{
}

/// A name is given out as it was kept, and a copy of it is the same name.
pub proof fn law_names_are_given_out_whole(name: ShmName, text: &str, copy: ShmName)
    requires
        call_ensures(ShmName::as_str, (&name,), text),
        call_ensures(ShmName::clone, (&name,), copy),
    ensures
        text@ == name@,
        copy@ == name@,
{
}

} // verus!
