//! Paths as the file system walks them.
use crate::errno::ENOENT;
use vstd::prelude::*;

verus! {

/// One step of a path.
#[derive(PartialEq, Eq, Debug)]
pub enum PathComponent {
    /// The empty name after a trailing slash.
    TrailingEmpty,
    /// `.`
    Current,
    /// `..`
    Parent,
    /// Any other name.
    Name(Vec<u8>),
}

/// A component told by a tag (0 trailing empty, 1 `.`, 2 `..`, 3 a name)
/// and its name bytes.
pub open spec fn component_view(c: PathComponent) -> (u8, Seq<u8>) {
    match c {
        PathComponent::TrailingEmpty => (0u8, Seq::empty()),
        PathComponent::Current => (1u8, Seq::empty()),
        PathComponent::Parent => (2u8, Seq::empty()),
        PathComponent::Name(v) => (3u8, v@),
    }
}

/// The view of the component a non-empty name stands for.
pub open spec fn view_of_name(name: Seq<u8>) -> (u8, Seq<u8>) {
    if name == seq![46u8] {
        (1u8, Seq::<u8>::empty())
    } else if name == seq![46u8, 46u8] {
        (2u8, Seq::<u8>::empty())
    } else {
        (3u8, name)
    }
}

/// Reading `p` from the left: the names finished so far and the name being
/// read.
pub open spec fn names_acc(p: Seq<u8>) -> (Seq<Seq<u8>>, Seq<u8>)
    decreases p.len(),
{
    if p.len() == 0 {
        (Seq::empty(), Seq::empty())
    } else {
        let (done, cur) = names_acc(p.drop_last());
        if p.last() == 47u8 {
            if cur.len() > 0 {
                (done.push(cur), Seq::empty())
            } else {
                (done, Seq::empty())
            }
        } else {
            (done, cur.push(p.last()))
        }
    }
}

/// The non-empty names between the slashes of `p`, in order.
pub open spec fn names(p: Seq<u8>) -> Seq<Seq<u8>> {
    let (done, cur) = names_acc(p);
    if cur.len() > 0 {
        done.push(cur)
    } else {
        done
    }
}

/// The components of `p`: its names, `.` and `..` told apart, and a final
/// trailing empty one when `p` ends with a slash after some name.
pub open spec fn components(p: Seq<u8>) -> Seq<(u8, Seq<u8>)> {
    let ns = name_views(names(p));
    if p.len() > 0 && p.last() == 47u8 && names(p).len() > 0 {
        ns.push((0u8, Seq::<u8>::empty()))
    } else {
        ns
    }
}

/// The views of a list of components.
pub open spec fn views(cs: Seq<PathComponent>) -> Seq<(u8, Seq<u8>)> {
    cs.map_values(|c: PathComponent| component_view(c))
}

/// The views of the components a list of non-empty names stands for.
pub open spec fn name_views(ns: Seq<Seq<u8>>) -> Seq<(u8, Seq<u8>)> {
    ns.map_values(|n: Seq<u8>| view_of_name(n))
}

/// Pushing a component and the name it stands for keeps their views equal.
proof fn lemma_views_push(cs: Seq<PathComponent>, ns: Seq<Seq<u8>>, c: PathComponent, n: Seq<u8>)
    requires
        views(cs) == name_views(ns),
        component_view(c) == view_of_name(n),
    ensures
        views(cs.push(c)) == name_views(ns.push(n)),
{
    assert(views(cs).len() == cs.len());
    assert(name_views(ns).len() == ns.len());
    assert forall|k: int| 0 <= k < cs.len() + 1 implies #[trigger] views(cs.push(c))[k] == name_views(ns.push(n))[k] by {
        if k < cs.len() {
            assert(views(cs)[k] == name_views(ns)[k]);
        }
    }
    assert(views(cs.push(c)) =~= name_views(ns.push(n)));
}

/// The name a component stands for, when it is a name other than `.`
/// and `..`.
pub open spec fn component_name(c: PathComponent) -> Option<Seq<u8>> {
    match c {
        PathComponent::Name(n) => if n@ != seq![46u8] && n@ != seq![46u8, 46u8] {
            Some(n@)
        } else {
            None
        },
        _ => None,
    }
}

/// Components that view as those of some bytes have a trailing empty
/// one only last.
proof fn lemma_parsed_well_placed(path: Path, p: Seq<u8>)
    requires
        path.component_views() == components(p),
    ensures
        path.well_placed(),
{
    let ns = name_views(names(p));
    assert(views(path.components@).len() == path.components@.len());
    assert(ns.len() == names(p).len());
    assert forall|k: int| 0 <= k < path.components@.len() - 1 implies !(#[trigger] path.components@[k] is TrailingEmpty) by {
        assert(views(path.components@)[k] == component_view(path.components@[k]));
        if p.len() > 0 && p.last() == 47u8 && names(p).len() > 0 {
            assert(components(p) == ns.push((0u8, Seq::<u8>::empty())));
            assert(components(p)[k] == ns[k]);
        } else {
            assert(components(p) == ns);
        }
        assert(ns[k] == view_of_name(names(p)[k]));
    }
}

/// A parsed path: whether it starts at the root, and its components.
pub struct Path {
    pub absolute: bool,
    pub components: Vec<PathComponent>,
}

impl Path {
    /// The components, viewed.
    pub open spec fn component_views(&self) -> Seq<(u8, Seq<u8>)> {
        views(self.components@)
    }

    /// The name the last component stands for, if it is one.
    pub open spec fn final_name(&self) -> Option<Seq<u8>> {
        if self.components@.len() > 0 {
            component_name(self.components@.last())
        } else {
            None
        }
    }

    /// A trailing empty component comes only last.
    pub open spec fn well_placed(&self) -> bool {
        forall|k: int| 0 <= k < self.components@.len() - 1 ==> !(#[trigger] self.components@[k] is TrailingEmpty)
    }

    /// Parse `p`; `ENOENT` for the empty path.
    pub fn new(p: &[u8]) -> (r: Result<Path, u32>)
        ensures
            p@.len() == 0 <==> r == Err::<Path, u32>(ENOENT),
            r matches Ok(path) ==> path.absolute == (p@[0] == 47u8) && path.component_views()
                == components(p@),
            r matches Ok(path) ==> path.well_placed(),
    {
        if p.len() == 0 {
            return Err(ENOENT);
        }
        let mut done: Vec<PathComponent> = Vec::new();
        let mut cur: Vec<u8> = Vec::new();
        let mut nnames: usize = 0;
        let ghost mut dn: Seq<Seq<u8>> = Seq::empty();
        let mut i: usize = 0;
        while i < p.len()
            invariant
                i <= p@.len(),
                names_acc(p@.subrange(0, i as int)) == (dn, cur@),
                views(done@) == name_views(dn),
                nnames == dn.len(),
                nnames + cur@.len() <= i,
            decreases p@.len() - i,
        {
            let b = p[i];
            proof {
                assert(p@.subrange(0, i + 1).drop_last() =~= p@.subrange(0, i as int));
            }
            if b == 47u8 {
                if cur.len() > 0 {
                    let ghost cv = cur@;
                    let c = component_of(cur);
                    proof {
                        lemma_views_push(done@, dn, c, cv);
                        dn = dn.push(cv);
                    }
                    done.push(c);
                    nnames = nnames + 1;
                    cur = Vec::new();
                }
            } else {
                cur.push(b);
            }
            i = i + 1;
        }
        proof {
            assert(p@.subrange(0, p@.len() as int) =~= p@);
        }
        let trailing = p[p.len() - 1] == 47u8;
        if cur.len() > 0 {
            let ghost cv = cur@;
            let c = component_of(cur);
            proof {
                lemma_views_push(done@, dn, c, cv);
                dn = dn.push(cv);
            }
            done.push(c);
            nnames = nnames + 1;
        }
        proof {
            assert(dn == names(p@));
        }
        if trailing && nnames > 0 {
            let ghost before = done@;
            done.push(PathComponent::TrailingEmpty);
            proof {
                assert forall|k: int| 0 <= k < done@.len() implies #[trigger] views(done@)[k] == name_views(dn).push((0u8, Seq::<u8>::empty()))[k] by {
                    if k < before.len() {
                        assert(views(before)[k] == name_views(dn)[k]);
                    }
                }
                assert(views(done@) =~= name_views(dn).push((0u8, Seq::<u8>::empty())));
            }
        }
        let r = Path { absolute: p[0] == 47u8, components: done };
        proof {
            lemma_parsed_well_placed(r, p@);
        }
        Ok(r)
    }
}

/// The component a non-empty name stands for.
fn component_of(name: Vec<u8>) -> (r: PathComponent)
    ensures
        component_view(r) == view_of_name(name@),
{
    if name.len() == 1 && name[0] == 46u8 {
        assert(name@ =~= seq![46u8]);
        PathComponent::Current
    } else if name.len() == 2 && name[0] == 46u8 && name[1] == 46u8 {
        assert(name@ =~= seq![46u8, 46u8]);
        PathComponent::Parent
    } else {
        proof {
            if name@ == seq![46u8] {
                assert(name@.len() == 1);
            }
            if name@ == seq![46u8, 46u8] {
                assert(name@.len() == 2);
            }
        }
        PathComponent::Name(name)
    }
}

} // verus!
