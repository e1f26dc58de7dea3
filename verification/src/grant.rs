//! The trust lattice: how far a workload may reach, on three axes.
//!
//! A level is a rank. One grant narrows another when none of its three levels outranks the
//! other's; the join of two grants takes the higher level on each axis.
use vstd::prelude::*;

use crate::canonical;
use crate::json;
use crate::json::{member, object, Json, Tree, Writable};
use crate::text::owned;

verus! {

/// How far along one axis.
///
/// The axes share one vocabulary. `ReadOnly`, `Sandboxed` and `Loopback` are the first step on
/// the filesystem, exec and network axes, `ReadWrite` and `Allowlist` the second.
#[derive(Debug, Clone, Copy, PartialEq, Eq, Structural)]
pub enum Level {
    Nothing,
    ReadOnly,
    Sandboxed,
    Loopback,
    ReadWrite,
    Allowlist,
    Full,
}

/// What a workload may reach: one level on each axis.
#[derive(Debug, Clone, Copy, PartialEq, Eq, Structural)]
pub struct Grant {
    pub filesystem: Level,
    pub network: Level,
    pub execution: Level,
}

/// How hard an effect is to walk back.
#[derive(Debug, Clone, Copy, PartialEq, Eq, Structural)]
pub enum Reversibility {
    ReversibleCheap,
    IrreversibleBounded,
    IrreversibleConsequential,
}

/// One of the three axes of a grant.
#[derive(Debug, Clone, Copy, PartialEq, Eq, Structural)]
pub enum Axis {
    Filesystem,
    Network,
    Exec,
}

/// A grant that asks for more than its ceiling allows, and where.
#[derive(Debug, Clone, Copy, PartialEq, Eq, Structural)]
pub struct Widening {
    pub axis: Axis,
    pub requested: Level,
    pub granted: Level,
}

impl DeepView for Level {
    type V = Level;

    open spec fn deep_view(&self) -> Level {
        *self
    }
}

impl DeepView for Widening {
    type V = Widening;

    open spec fn deep_view(&self) -> Widening {
        *self
    }
}

impl DeepView for Grant {
    type V = Grant;

    open spec fn deep_view(&self) -> Grant {
        *self
    }
}

impl DeepView for Reversibility {
    type V = Reversibility;

    open spec fn deep_view(&self) -> Reversibility {
        *self
    }
}

impl Level {
    /// The height of a level.
    pub open spec fn height(self) -> nat {
        match self {
            Level::Nothing => 0,
            Level::ReadOnly | Level::Sandboxed | Level::Loopback => 1,
            Level::ReadWrite | Level::Allowlist => 2,
            Level::Full => 3,
        }
    }

    /// The higher of two levels; the first where they are level.
    pub open spec fn joined(self, other: Level) -> Level {
        if self.height() >= other.height() {
            self
        } else {
            other
        }
    }

    /// The word for this level in a refusal.
    pub open spec fn word(self) -> Seq<char> {
        match self {
            Level::Nothing => "none"@,
            Level::ReadOnly => "read-only"@,
            Level::Sandboxed => "sandboxed"@,
            Level::Loopback => "loopback"@,
            Level::ReadWrite => "read-write"@,
            Level::Allowlist => "allowlist"@,
            Level::Full => "full"@,
        }
    }

    /// The name of this level as it is declared.
    pub open spec fn label(self) -> Seq<char> {
        match self {
            Level::Nothing => "None"@,
            Level::ReadOnly => "ReadOnly"@,
            Level::Sandboxed => "Sandboxed"@,
            Level::Loopback => "Loopback"@,
            Level::ReadWrite => "ReadWrite"@,
            Level::Allowlist => "Allowlist"@,
            Level::Full => "Full"@,
        }
    }

    pub fn rank(self) -> (r: u8)
        ensures
            r == self.height(),
    {
        match self {
            Level::Nothing => 0,
            Level::ReadOnly | Level::Sandboxed | Level::Loopback => 1,
            Level::ReadWrite | Level::Allowlist => 2,
            Level::Full => 3,
        }
    }

    pub fn join(self, other: Level) -> (r: Level)
        ensures
            r == self.joined(other),
    {
        if self.rank() >= other.rank() {
            self
        } else {
            other
        }
    }

    pub fn as_str(self) -> (r: &'static str)
        ensures
            r@ == self.word(),
    {
        match self {
            Level::Nothing => "none",
            Level::ReadOnly => "read-only",
            Level::Sandboxed => "sandboxed",
            Level::Loopback => "loopback",
            Level::ReadWrite => "read-write",
            Level::Allowlist => "allowlist",
            Level::Full => "full",
        }
    }

    pub fn name(self) -> (r: &'static str)
        ensures
            r@ == self.label(),
    {
        match self {
            Level::Nothing => "None",
            Level::ReadOnly => "ReadOnly",
            Level::Sandboxed => "Sandboxed",
            Level::Loopback => "Loopback",
            Level::ReadWrite => "ReadWrite",
            Level::Allowlist => "Allowlist",
            Level::Full => "Full",
        }
    }
}

impl Grant {
    /// The grant of nothing.
    pub open spec fn nothing() -> Grant {
        Grant { filesystem: Level::Nothing, network: Level::Nothing, execution: Level::Nothing }
    }

    /// `self` asks for no more than `ceiling` on any axis.
    pub open spec fn fits(self, ceiling: Grant) -> bool {
        &&& self.filesystem.height() <= ceiling.filesystem.height()
        &&& self.network.height() <= ceiling.network.height()
        &&& self.execution.height() <= ceiling.execution.height()
    }

    /// The axis-wise join.
    pub open spec fn joined(self, other: Grant) -> Grant {
        Grant {
            filesystem: self.filesystem.joined(other.filesystem),
            network: self.network.joined(other.network),
            execution: self.execution.joined(other.execution),
        }
    }

    /// The first axis, in the order filesystem, network, exec, on which `child` asks for more
    /// than `parent` grants.
    pub open spec fn widening(parent: Grant, child: Grant) -> Option<Widening> {
        if child.filesystem.height() > parent.filesystem.height() {
            Some(
                Widening {
                    axis: Axis::Filesystem,
                    requested: child.filesystem,
                    granted: parent.filesystem,
                },
            )
        } else if child.network.height() > parent.network.height() {
            Some(
                Widening { axis: Axis::Network, requested: child.network, granted: parent.network },
            )
        } else if child.execution.height() > parent.execution.height() {
            Some(Widening {
                axis: Axis::Exec,
                requested: child.execution,
                granted: parent.execution,
            })
        } else {
            None
        }
    }

    pub fn new(filesystem: Level, network: Level, execution: Level) -> (g: Grant)
        ensures
            g == (Grant { filesystem, network, execution }),
    {
        Grant { filesystem, network, execution }
    }

    /// Does `child` stay within `parent`? The narrowed grant, or the first axis it widens.
    pub fn narrow(parent: &Grant, child: &Grant) -> (r: Result<Grant, Widening>)
        ensures
            r == (match Grant::widening(*parent, *child) {
                None => Ok::<Grant, Widening>(*child),
                Some(w) => Err::<Grant, Widening>(w),
            }),
            r is Ok <==> child.fits(*parent),
    {
        if child.filesystem.rank() > parent.filesystem.rank() {
            return Err(
                Widening {
                    axis: Axis::Filesystem,
                    requested: child.filesystem,
                    granted: parent.filesystem,
                },
            );
        }
        if child.network.rank() > parent.network.rank() {
            return Err(
                Widening { axis: Axis::Network, requested: child.network, granted: parent.network },
            );
        }
        if child.execution.rank() > parent.execution.rank() {
            return Err(Widening {
                axis: Axis::Exec,
                requested: child.execution,
                granted: parent.execution,
            });
        }
        Ok(*child)
    }
}

impl Axis {
    /// The name of the axis.
    pub open spec fn word(self) -> Seq<char> {
        match self {
            Axis::Filesystem => "filesystem"@,
            Axis::Network => "network"@,
            Axis::Exec => "exec"@,
        }
    }

    pub fn as_str(self) -> (r: &'static str)
        ensures
            r@ == self.word(),
    {
        match self {
            Axis::Filesystem => "filesystem",
            Axis::Network => "network",
            Axis::Exec => "exec",
        }
    }
}

impl Writable for Level {
    open spec fn tree(v: Level) -> Tree {
        Tree::Text(v.word())
    }

    fn to_json(&self) -> (r: Json) {
        Json::Text(owned(self.as_str()))
    }
}

impl Writable for Grant {
    open spec fn tree(v: Grant) -> Tree {
        Tree::Object(
            seq![
                ("filesystem"@, Level::tree(v.filesystem)),
                ("network"@, Level::tree(v.network)),
                ("exec"@, Level::tree(v.execution)),
            ],
        )
    }

    fn to_json(&self) -> (r: Json) {
        let mut m: Vec<(String, Json)> = Vec::new();
        m.push(member("filesystem", self.filesystem.to_json()));
        m.push(member("network", self.network.to_json()));
        m.push(member("exec", self.execution.to_json()));
        let j = object(m);
        assert(j@->Object_0 =~= Self::tree(*self)->Object_0);
        j
    }
}

impl Widening {
    /// The refusal in words.
    pub open spec fn message(self) -> Seq<char> {
        "trust widening on "@ + self.axis.word() + ": child requests `"@ + self.requested.word()
            + "` but parent only grants `"@ + self.granted.word() + "`"@
    }

    pub fn to_text(&self) -> (r: String)
        ensures
            r@ == self.message(),
    {
        let mut m = owned("trust widening on ");
        m.append(self.axis.as_str());
        m.append(": child requests `");
        m.append(self.requested.as_str());
        m.append("` but parent only grants `");
        m.append(self.granted.as_str());
        m.append("`");
        m
    }
}

// ---------------------------------------------------------------------------------------------
// Laws
// ---------------------------------------------------------------------------------------------
/// Narrowing is reflexive: every grant stays within itself.
pub proof fn narrowing_is_reflexive(g: Grant)
    ensures
        g.fits(g),
        Grant::widening(g, g) is None,
{
}

/// Narrowing is transitive: what stays within a grant stays within every ceiling of that grant.
pub proof fn narrowing_is_transitive(a: Grant, b: Grant, c: Grant)
    requires
        a.fits(b),
        b.fits(c),
    ensures
        a.fits(c),
{
}

/// The join is the least upper bound: it holds both grants, and a ceiling holds the join exactly
/// where it holds both.
pub proof fn join_is_the_least_upper_bound(a: Grant, b: Grant, ceiling: Grant)
    ensures
        a.fits(a.joined(b)),
        b.fits(a.joined(b)),
        a.joined(b).fits(ceiling) <==> a.fits(ceiling) && b.fits(ceiling),
{
}

proof fn no_two_levels_have_one_name(a: Level, b: Level)
    requires
        a.word() == b.word(),
    ensures
        a == b,
{
    reveal_strlit("none");
    reveal_strlit("read-only");
    reveal_strlit("sandboxed");
    reveal_strlit("loopback");
    reveal_strlit("read-write");
    reveal_strlit("allowlist");
    reveal_strlit("full");
    let x = a.word();
    let y = b.word();
    assert(x.len() == y.len() && x[0] == y[0]);
    match a {
        Level::Nothing => {},
        Level::ReadOnly => {},
        Level::Sandboxed => {},
        Level::Loopback => {},
        Level::ReadWrite => {},
        Level::Allowlist => {},
        Level::Full => {},
    }
}

/// No two grants are written alike.
pub proof fn no_two_grants_are_written_alike(a: Grant, b: Grant)
    ensures
        canonical::well_written(Grant::tree(a)),
        Grant::tree(a) == Grant::tree(b) ==> a == b,
{
    let x = Grant::tree(a)->Object_0;
    let y = Grant::tree(b)->Object_0;
    assert(canonical::well_written(x[0].1));
    assert(canonical::well_written(x[1].1));
    assert(canonical::well_written(x[2].1));
    if x == y {
        assert(x[0] == y[0] && x[1] == y[1] && x[2] == y[2]);
        no_two_levels_have_one_name(a.filesystem, b.filesystem);
        no_two_levels_have_one_name(a.network, b.network);
        no_two_levels_have_one_name(a.execution, b.execution);
    }
}

/// Nothing is below every level and the whole is above every other, and on each axis the levels that
/// it can hold rise one above the next.
pub proof fn the_levels_rise(l: Level)
    ensures
        Level::Nothing.height() <= l.height() <= Level::Full.height(),
        l.height() == Level::Nothing.height() ==> l == Level::Nothing,
        l.height() == Level::Full.height() ==> l == Level::Full,
        Level::ReadOnly.height() < Level::ReadWrite.height() < Level::Full.height(),
        Level::Loopback.height() < Level::Allowlist.height() < Level::Full.height(),
        Level::Nothing.height() < Level::Sandboxed.height() < Level::Full.height(),
{
}

/// Each axis is held to its own ceiling: a grant fits where none of its three axes rises above the
/// same axis of the ceiling, and height on one never makes up for another.
pub proof fn every_axis_is_held_alone(g: Grant, ceiling: Grant, l: Level)
    ensures
        g.fits(Grant { filesystem: Level::Full, network: Level::Full, execution: Level::Full }),
        (Grant { filesystem: l, network: Level::Nothing, execution: Level::Nothing }).fits(ceiling)
            <==> l.height() <= ceiling.filesystem.height(),
        (Grant { filesystem: Level::Nothing, network: l, execution: Level::Nothing }).fits(ceiling)
            <==> l.height() <= ceiling.network.height(),
        (Grant { filesystem: Level::Nothing, network: Level::Nothing, execution: l }).fits(ceiling)
            <==> l.height() <= ceiling.execution.height(),
        g.fits(ceiling) ==> g.filesystem.height() <= ceiling.filesystem.height()
            && g.network.height() <= ceiling.network.height() && g.execution.height()
            <= ceiling.execution.height(),
        g.fits(
            Grant { filesystem: Level::Nothing, network: Level::Nothing, execution: Level::Nothing },
        ) ==> g == (Grant {
            filesystem: Level::Nothing,
            network: Level::Nothing,
            execution: Level::Nothing,
        }),
{
}

/// A widening is reported exactly where the child does not fit, and names an axis on which it does
/// not, with the level that each side holds there.
pub proof fn a_widening_names_its_axis(parent: Grant, child: Grant)
    ensures
        Grant::widening(parent, child) is None <==> child.fits(parent),
        Grant::widening(parent, child) matches Some(w) ==> w.granted.height() < w.requested.height()
            && (w.axis == Axis::Filesystem ==> w.requested == child.filesystem && w.granted
            == parent.filesystem) && (w.axis == Axis::Network ==> w.requested == child.network
            && w.granted == parent.network && child.filesystem.height()
            <= parent.filesystem.height()) && (w.axis == Axis::Exec ==> w.requested
            == child.execution && w.granted == parent.execution && child.filesystem.height()
            <= parent.filesystem.height() && child.network.height() <= parent.network.height()),
{
}

/// The join of two levels is one of the two, and no lower than either.
pub proof fn a_join_is_one_of_the_two(a: Level, b: Level)
    ensures
        a.joined(b) == a || a.joined(b) == b,
        a.joined(b).height() >= a.height(),
        a.joined(b).height() >= b.height(),
{
}

/// A grant is written with each axis under its own name, in the words of its level.
pub proof fn a_grant_is_written_under_its_names(g: Grant)
    ensures
        Grant::tree(g).member("filesystem"@) == Some(Tree::Text(g.filesystem.word())),
        Grant::tree(g).member("network"@) == Some(Tree::Text(g.network.word())),
        Grant::tree(g).member("exec"@) == Some(Tree::Text(g.execution.word())),
{
    let all = Grant::tree(g)->Object_0;
    reveal_strlit("filesystem");
    reveal_strlit("network");
    reveal_strlit("exec");
    assert("filesystem"@.len() != "network"@.len());
    assert("filesystem"@.len() != "exec"@.len());
    assert("network"@.len() != "exec"@.len());
    json::a_first_member_is_found(all, 0);
    json::a_first_member_is_found(all, 1);
    json::a_first_member_is_found(all, 2);
}

/// The axes are called the file system, the network and exec.
pub proof fn an_axis_has_its_name(a: Axis)
    ensures
        a.word() == "filesystem"@ <==> a == Axis::Filesystem,
        a.word() == "network"@ <==> a == Axis::Network,
        a.word() == "exec"@ <==> a == Axis::Exec,
{
    reveal_strlit("filesystem");
    reveal_strlit("network");
    reveal_strlit("exec");
    assert("filesystem"@.len() != "network"@.len());
    assert("filesystem"@.len() != "exec"@.len());
    assert("network"@.len() != "exec"@.len());
}

} // verus!
