//! How a hierarchy is laid out in generated code: one layer of storage per
//! meaning of an ascending list, each layer holding the meaning's own fields
//! and a tag that either ends the chain or leads to the next layer.

use vstd::prelude::*;
use crate::symbol::{LmtFactory, Symbol};

verus! {

/// The module that holds the generated storage types.
pub const DATA: &'static str = "__data__";

/// The field of a layer that holds its tag.
pub const DATA_VARIANT_FIELD: &'static str = "__variant";

/// What the name of a meaning is prefixed with to name the type of its tag.
pub const DATA_VARIANT_PREFIX: &'static str = "__variant_";

/// The tag of a layer that is the last of its chain.
pub const DATA_VARIANT_NO_SUBMEANING: &'static str = "__Nothing";

/// The field `field` of the layer that `base` stands for.
pub open spec fn field_access(base: Seq<char>, field: Seq<char>) -> Seq<char> {
    base + "."@ + field
}

/// One layer-unwrap step: matches the tag of the layer `base`, which
/// belongs to the meaning `parent`, against the variant that leads on to the
/// layer of `child`, binds that layer to `o` and goes on with `inner`. Any
/// other tag aborts.
pub open spec fn layer_unwrap(
    parent: Seq<char>,
    child: Seq<char>,
    base: Seq<char>,
    inner: Seq<char>,
) -> Seq<char> {
    "(if let "@ + DATA@ + "::"@ + DATA_VARIANT_PREFIX@ + parent + "::"@ + child + "(o) = &"@ + base
        + "."@ + DATA_VARIANT_FIELD@ + " { "@ + inner + " } else { panic!() })"@
}

/// The layer-unwrap steps on the way from the layer of `names[from]` to
/// the last layer of the chain, each as the pair of the meaning left and the
/// meaning entered.
pub open spec fn unwrap_steps(names: Seq<Seq<char>>, from: int) -> Seq<(Seq<char>, Seq<char>)> {
    Seq::new((names.len() - 1 - from) as nat, |k: int| (names[from + k], names[from + k + 1]))
}

/// The expression that performs `steps`, starting at `base`, and then
/// reads `field` from the layer reached.
pub open spec fn render_traversal(
    steps: Seq<(Seq<char>, Seq<char>)>,
    base: Seq<char>,
    field: Seq<char>,
) -> Seq<char>
    decreases steps.len(),
{
    if steps.len() == 0 {
        field_access(base, field)
    } else {
        layer_unwrap(
            steps[0].0,
            steps[0].1,
            base,
            render_traversal(steps.drop_first(), "o"@, field),
        )
    }
}

/// The expression that reaches `field`, stored in the last layer of the
/// chain `names`, from `base`, which stands for the layer of `names[from]`.
pub open spec fn traversal(
    names: Seq<Seq<char>>,
    from: int,
    base: Seq<char>,
    field: Seq<char>,
) -> Seq<char> {
    render_traversal(unwrap_steps(names, from), base, field)
}

/// `base` wrapped in one constructor call per meaning of `names`, the
/// first of `names` innermost and the last outermost.
pub open spec fn layers(names: Seq<Seq<char>>, base: Seq<char>) -> Seq<char>
    decreases names.len(),
{
    if names.len() == 0 {
        base
    } else {
        names.last() + "("@ + layers(names.drop_last(), base) + ")"@
    }
}

/// The traversal from a layer that is not the last one is one unwrap step
/// into the next layer, around the traversal from there; from the last layer
/// it is the access to the field.
pub proof fn lemma_traversal_unfold(
    names: Seq<Seq<char>>,
    from: int,
    base: Seq<char>,
    field: Seq<char>,
)
    requires
        0 <= from < names.len(),
    ensures
        from + 1 == names.len() ==> traversal(names, from, base, field) == field_access(
            base,
            field,
        ),
        from + 1 < names.len() ==> traversal(names, from, base, field) == layer_unwrap(
            names[from],
            names[from + 1],
            base,
            traversal(names, from + 1, "o"@, field),
        ),
{
    if from + 1 < names.len() {
        assert(unwrap_steps(names, from).drop_first() =~= unwrap_steps(names, from + 1));
    }
}

/// The depth of an accessor matches the chain: the expression that starts
/// at the layer of `names[from]` performs one unwrap step for each meaning
/// after `names[from]`, in the order of the chain, and none when it starts
/// at the last layer, where it is the access to the field.
pub proof fn lemma_unwrap_depth(names: Seq<Seq<char>>, from: int, base: Seq<char>, field: Seq<char>)
    requires
        0 <= from < names.len(),
    ensures
        unwrap_steps(names, from).len() == names.len() - 1 - from,
        forall|k: int|
            0 <= k < names.len() - 1 - from ==> #[trigger] unwrap_steps(names, from)[k] == (
                names[from + k],
                names[from + k + 1],
            ),
        from == names.len() - 1 ==> traversal(names, from, base, field) == field_access(
            base,
            field,
        ),
{
}

impl Symbol {
    /// Wraps `base`, an expression for the root of an instance, in the
    /// constructors of the meanings of `asc_meaning_list`: that of the first
    /// meaning innermost, that of the last one outermost.
    pub fn create_layers_over_weak_root(
        base: &str,
        asc_meaning_list: &[Symbol],
        factory: &LmtFactory,
    ) -> (code: String)
        requires
            forall|i: int|
                0 <= i < asc_meaning_list@.len() ==> factory@.contains(
                    #[trigger] asc_meaning_list@[i],
                ),
        ensures
            code@ == layers(factory@.names(asc_meaning_list@), base@),
    {
        let ghost names = factory@.names(asc_meaning_list@);
        let mut code: String = base.to_owned();
        let mut i: usize = 0;
        while i < asc_meaning_list.len()
            invariant
                i <= asc_meaning_list@.len(),
                names == factory@.names(asc_meaning_list@),
                forall|j: int|
                    0 <= j < asc_meaning_list@.len() ==> factory@.contains(
                        #[trigger] asc_meaning_list@[j],
                    ),
                code@ == layers(names.take(i as int), base@),
            decreases asc_meaning_list@.len() - i,
        {
            let mut wrapped: String = asc_meaning_list[i].name(factory);
            wrapped.append("(");
            wrapped.append(code.as_str());
            wrapped.append(")");
            proof {
                let longer = names.take(i + 1);
                assert(longer.drop_last() =~= names.take(i as int));
            }
            code = wrapped;
            i += 1;
        }
        assert(names.take(i as int) =~= names);
        code
    }
}

} // verus!
