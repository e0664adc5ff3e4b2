use vstd::prelude::*;
use vstd::std_specs::cmp::{PartialEqSpec, PartialEqSpecImpl};
use vstd::string::*;

verus! {

/// What the control panel edits: the defaults of a library animation (by
/// animation id) or a stored instance (by instance id).
#[derive(Debug, Clone, Copy)]
pub enum EditTarget {
    Library(i32),
    Instance(i32),
}

impl PartialEq for EditTarget {
    fn eq(&self, other: &Self) -> (r: bool) {
        match (self, other) {
            (EditTarget::Library(a), EditTarget::Library(b)) => *a == *b,
            (EditTarget::Instance(a), EditTarget::Instance(b)) => *a == *b,
            _ => false,
        }
    }
}

impl PartialEqSpecImpl for EditTarget {
    open spec fn obeys_eq_spec() -> bool {
        true
    }

    open spec fn eq_spec(&self, other: &EditTarget) -> bool {
        match (*self, *other) {
            (EditTarget::Library(a), EditTarget::Library(b)) => a == b,
            (EditTarget::Instance(a), EditTarget::Instance(b)) => a == b,
            _ => false,
        }
    }
}

/// What applying the panel's settings does to the store.
#[derive(Debug, Clone, Copy, PartialEq, Eq, Structural)]
pub enum ApplyStep {
    /// Update the stored instance with this id.
    Update(i32),
    /// Create a new instance of the animation with this id.
    Create(i32),
}

impl EditTarget {
    /// The heading shown for the target.
    pub open spec fn spec_heading(self) -> Seq<char> {
        match self {
            EditTarget::Library(_) => "Library Default"@,
            EditTarget::Instance(_) => "Active Instance"@,
        }
    }

    /// The heading shown for the target.
    pub fn heading(&self) -> (s: &'static str)
        ensures
            s@ == self.spec_heading(),
    {
        match self {
            EditTarget::Library(_) => "Library Default",
            EditTarget::Instance(_) => "Active Instance",
        }
    }

    pub open spec fn spec_apply_step(self) -> ApplyStep {
        match self {
            EditTarget::Library(anim_id) => ApplyStep::Create(anim_id),
            EditTarget::Instance(id) => ApplyStep::Update(id),
        }
    }

    /// What applying the settings does: a library target creates an instance
    /// of its animation, an instance target updates that instance.
    pub fn apply_step(&self) -> (step: ApplyStep)
        ensures
            step == self.spec_apply_step(),
    {
        match self {
            EditTarget::Library(anim_id) => ApplyStep::Create(*anim_id),
            EditTarget::Instance(id) => ApplyStep::Update(*id),
        }
    }

    pub open spec fn spec_promoted(self, created_id: i32) -> EditTarget {
        match self {
            EditTarget::Library(_) => EditTarget::Instance(created_id),
            EditTarget::Instance(_) => self,
        }
    }

    /// The target after an apply that created the instance `created_id`:
    /// a library target becomes that instance, so that later applies update
    /// it rather than create another; an instance target stays as it is.
    pub fn promoted(self, created_id: i32) -> (t: EditTarget)
        ensures
            t == self.spec_promoted(created_id),
    {
        match self {
            EditTarget::Library(_) => EditTarget::Instance(created_id),
            EditTarget::Instance(_) => self,
        }
    }
}

/// The panel's title: `<span size='large' weight='bold'>HEADING - NAME</span>`.
pub open spec fn title_markup_of(target: EditTarget, name: Seq<char>) -> Seq<char> {
    "<span size='large' weight='bold'>"@ + target.spec_heading() + " - "@ + name + "</span>"@
}

/// The panel's title markup for a target and the animation's name.
pub fn title_markup(target: &EditTarget, name: &str) -> (s: String)
    ensures
        s@ == title_markup_of(*target, name@),
{
    let mut s = String::from_str("<span size='large' weight='bold'>");
    s.append(target.heading());
    s.append(" - ");
    s.append(name);
    s.append("</span>");
    s
}

/// Whether deleting the instance `deleted_id` empties the control panel:
/// exactly when the panel is editing that instance.
pub fn clears_panel(current: Option<EditTarget>, deleted_id: i32) -> (r: bool)
    ensures
        r == (current == Some(EditTarget::Instance(deleted_id))),
{
    match current {
        Some(EditTarget::Instance(id)) => id == deleted_id,
        _ => false,
    }
}

/// Once a target has been promoted with the id of the instance that an
/// apply created, applying again updates that instance and never creates
/// another one.
pub proof fn promoted_target_updates(target: EditTarget, created_id: i32)
    ensures
        target.spec_promoted(created_id).spec_apply_step() == (match target {
            EditTarget::Library(_) => ApplyStep::Update(created_id),
            EditTarget::Instance(id) => ApplyStep::Update(id),
        }),
        !(target.spec_promoted(created_id).spec_apply_step() is Create),
{
}

/// Equality of edit targets is the equality of their variants and ids.
pub proof fn edit_target_eq_is_identity(a: EditTarget, b: EditTarget)
    ensures
        PartialEqSpec::eq_spec(&a, &b) <==> a == b,
{
}

/// Applying on a library animation always creates an instance of that
/// animation, and applying on an instance always updates that instance:
/// the step creates exactly for library targets, and it carries the
/// target's own id.
pub proof fn apply_creates_exactly_for_library(target: EditTarget)
    ensures
        target.spec_apply_step() is Create <==> target is Library,
        target is Library ==> target.spec_apply_step() == ApplyStep::Create(target->Library_0),
        target is Instance ==> target.spec_apply_step() == ApplyStep::Update(target->Instance_0),
{
}

/// The panel's title is the bold span holding the heading of the target's
/// kind and the name: `Library Default` for every library target and
/// `Active Instance` for every instance, whatever the id and the name; so
/// a library and an instance panel never share a title.
pub proof fn title_heading_follows_target_kind(target: EditTarget, other: EditTarget, name: Seq<char>)
    ensures
        target is Library ==> title_markup_of(target, name) == "<span size='large' weight='bold'>"@
            + "Library Default"@ + " - "@ + name + "</span>"@,
        target is Instance ==> title_markup_of(target, name) == "<span size='large' weight='bold'>"@
            + "Active Instance"@ + " - "@ + name + "</span>"@,
        (target is Library) != (other is Library) ==> title_markup_of(target, name) != title_markup_of(
            other,
            name,
        ),
{
    reveal_strlit("<span size='large' weight='bold'>");
    reveal_strlit("Library Default");
    reveal_strlit("Active Instance");
    let open = "<span size='large' weight='bold'>"@;
    if (target is Library) != (other is Library) {
        let a = title_markup_of(target, name);
        let b = title_markup_of(other, name);
        // The headings differ at their first character, right after the opening tag.
        assert(a[open.len() as int] == target.spec_heading()[0]);
        assert(b[open.len() as int] == other.spec_heading()[0]);
        assert(target.spec_heading()[0] != other.spec_heading()[0]);
    }
}

} // verus!
