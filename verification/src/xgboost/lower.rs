//! Lowering an XGBoost model: one value per feature, all taken by a single
//! booster node that carries the model's parameters as attributes; and the
//! one-node model of a pickled scikit-learn classifier.
use vstd::prelude::*;
use vstd::string::StringExecFns;
use crate::chars::{parse_i64, parse_i64_exec};
use crate::fmt::{decimal, u64_to_string};
use crate::graph::{AttributeView, LoweredAttribute, LoweredModel, LoweredNode, LoweredValue, ModelView, NodeView, ValueView, refs_in_range};
use crate::pytorch::modules::opt_view;
use crate::sentencepiece::lower::{attr_views, placeholders};
use crate::sentencepiece::{object_placeholder, object_placeholders};
use crate::xgboost::{XGBoostFormat, spec_is_xgboost_sklearn_pickle, is_xgboost_sklearn_pickle};

verus! {

/// The fields of an XGBoost model document that its lowering reads: the
/// version numbers, the feature names, whether the learner has attributes,
/// the learner's parameters as the texts the document gives, the objective
/// and booster names, the tree parameters, how many trees there are and the
/// tree info.
pub struct XGBoostModel {
    pub version: Option<Vec<u64>>,
    pub feature_names: Vec<String>,
    pub has_attributes: bool,
    pub base_score: Option<String>,
    pub num_class: Option<String>,
    pub num_feature: Option<String>,
    pub num_target: Option<String>,
    pub objective: Option<String>,
    pub booster: Option<String>,
    pub num_parallel_tree: Option<String>,
    pub num_trees: Option<String>,
    pub tree_count: usize,
    pub tree_info: Vec<i64>,
}

pub struct XGBoostModelView {
    pub version: Option<Seq<u64>>,
    pub feature_names: Seq<Seq<char>>,
    pub has_attributes: bool,
    pub base_score: Option<Seq<char>>,
    pub num_class: Option<Seq<char>>,
    pub num_feature: Option<Seq<char>>,
    pub num_target: Option<Seq<char>>,
    pub objective: Option<Seq<char>>,
    pub booster: Option<Seq<char>>,
    pub num_parallel_tree: Option<Seq<char>>,
    pub num_trees: Option<Seq<char>>,
    pub tree_count: nat,
    pub tree_info: Seq<i64>,
}

impl View for XGBoostModel {
    type V = XGBoostModelView;

    open spec fn view(&self) -> XGBoostModelView {
        XGBoostModelView {
            version: match self.version {
                Some(v) => Some(v@),
                None => None,
            },
            feature_names: self.feature_names@.map_values(|s: String| s@),
            has_attributes: self.has_attributes,
            base_score: opt_view(self.base_score),
            num_class: opt_view(self.num_class),
            num_feature: opt_view(self.num_feature),
            num_target: opt_view(self.num_target),
            objective: opt_view(self.objective),
            booster: opt_view(self.booster),
            num_parallel_tree: opt_view(self.num_parallel_tree),
            num_trees: opt_view(self.num_trees),
            tree_count: self.tree_count as nat,
            tree_info: self.tree_info@,
        }
    }
}

/// The version numbers joined by dots.
pub open spec fn spec_join_version(v: Seq<u64>) -> Seq<char>
    decreases v.len(),
{
    if v.len() == 0 {
        Seq::empty()
    } else if v.len() == 1 {
        decimal(v[0] as int)
    } else {
        spec_join_version(v.drop_last()) + "."@ + decimal(v.last() as int)
    }
}

/// A text attribute, where the document gives the text.
pub open spec fn text_param(name: Seq<char>, v: Option<Seq<char>>) -> Seq<(Seq<char>, AttributeView)> {
    match v {
        Some(s) => seq![(name, AttributeView::Text(s))],
        None => Seq::empty(),
    }
}

/// An integer attribute, where the document gives a text that spells an
/// `i64`.
pub open spec fn int_param(name: Seq<char>, v: Option<Seq<char>>) -> Seq<(Seq<char>, AttributeView)> {
    match v {
        Some(s) => match parse_i64(s) {
            Some(n) => seq![(name, AttributeView::Int(n))],
            None => Seq::empty(),
        },
        None => Seq::empty(),
    }
}

/// The booster's attributes, in order: the version, the learner's
/// parameters, objective, attributes and booster type, the tree parameters,
/// a placeholder per tree (at most sixteen) and the tree info.
pub open spec fn xgboost_attributes(m: XGBoostModelView) -> Seq<(Seq<char>, AttributeView)> {
    (match m.version {
        Some(v) => seq![("version"@, AttributeView::Ints(v.map_values(|x: u64| x as i64)))],
        None => Seq::empty(),
    }) + text_param("base_score"@, m.base_score) + int_param("num_feature"@, m.num_feature) + int_param(
        "num_class"@,
        m.num_class,
    ) + int_param("num_target"@, m.num_target) + text_param("objective"@, m.objective) + (if m.has_attributes {
        seq![("attributes"@, AttributeView::Text(object_placeholder()))]
    } else {
        Seq::empty()
    }) + text_param("booster_type"@, m.booster) + int_param("num_trees"@, m.num_trees) + int_param(
        "num_parallel_tree"@,
        m.num_parallel_tree,
    ) + seq![
        ("trees"@, AttributeView::Texts(placeholders(m.tree_count))),
        ("tree_info"@, AttributeView::Ints(m.tree_info)),
    ]
}

/// A value known only by its name.
pub open spec fn feature_value(name: Seq<char>) -> ValueView {
    ValueView { name: Some(name), initializer: None, element_type: None, shape: None, layout: None }
}

/// The lowered XGBoost model: one value per feature (the graph's inputs
/// when there are fewer than a thousand), and one booster node that takes
/// them all.
pub open spec fn spec_lower_xgboost(format: Seq<char>, m: XGBoostModelView) -> ModelView {
    let n = m.feature_names.len();
    ModelView {
        format,
        version: match m.version {
            Some(v) => Some(spec_join_version(v)),
            None => None,
        },
        values: m.feature_names.map_values(|s: Seq<char>| feature_value(s)),
        nodes: seq![
            NodeView {
                name: None,
                operator: "xgboost.core.Booster"@,
                inputs: Seq::new(n, |i: int| Some(i as usize)),
                outputs: Seq::empty(),
                attributes: xgboost_attributes(m),
                metadata: Seq::empty(),
            },
        ],
        inputs: if n < 1000 {
            Seq::new(n, |i: int| i as usize)
        } else {
            Seq::empty()
        },
        outputs: Seq::empty(),
        producer: None,
        producer_version: None,
    }
}

/// The model of a pickled scikit-learn XGBoost classifier: one node.
pub open spec fn spec_sklearn_classifier() -> ModelView {
    ModelView {
        format: "scikit-learn"@,
        version: None,
        values: Seq::empty(),
        nodes: seq![
            NodeView {
                name: None,
                operator: "xgboost.sklearn.XGBClassifier"@,
                inputs: Seq::empty(),
                outputs: Seq::empty(),
                attributes: Seq::empty(),
                metadata: Seq::empty(),
            },
        ],
        inputs: Seq::empty(),
        outputs: Seq::empty(),
        producer: None,
        producer_version: None,
    }
}

/// The version numbers joined by dots.
fn join_version(values: &Vec<u64>) -> (r: String)
    ensures
        r@ == spec_join_version(values@),
{
    let mut text = String::new();
    let mut i: usize = 0;
    while i < values.len()
        invariant
            i <= values@.len(),
            text@ == spec_join_version(values@.take(i as int)),
        decreases values@.len() - i,
    {
        if i > 0 {
            text.append(".");
        }
        text.append(u64_to_string(values[i]).as_str());
        proof {
            assert(values@.take(i + 1).drop_last() =~= values@.take(i as int));
            if i == 0 {
                assert(values@.take(1) =~= seq![values@[0]]);
            }
        }
        i = i + 1;
    }
    proof {
        assert(values@.take(values@.len() as int) =~= values@);
    }
    text
}

/// Adds a text attribute where there is a text.
fn push_text(out: &mut Vec<(String, LoweredAttribute)>, name: &str, v: Option<String>)
    ensures
        attr_views(final(out)@) == attr_views(old(out)@) + text_param(name@, opt_view(v)),
{
    let ghost before = attr_views(out@);
    match v {
        Some(s) => {
            out.push((String::from_str(name), LoweredAttribute::Text(s)));
        },
        None => {},
    }
    proof {
        assert(attr_views(out@) =~= before + text_param(name@, opt_view(v)));
    }
}

/// Adds an integer attribute where there is a text that spells one.
fn push_int(out: &mut Vec<(String, LoweredAttribute)>, name: &str, v: Option<String>)
    ensures
        attr_views(final(out)@) == attr_views(old(out)@) + int_param(name@, opt_view(v)),
{
    let ghost before = attr_views(out@);
    match v {
        Some(s) => match parse_i64_exec(s.as_str()) {
            Some(n) => {
                out.push((String::from_str(name), LoweredAttribute::Int(n)));
            },
            None => {},
        },
        None => {},
    }
    proof {
        assert(attr_views(out@) =~= before + int_param(name@, opt_view(v)));
    }
}

/// The version numbers as signed integers, wrapping as a cast does.
fn version_ints(v: &Vec<u64>) -> (r: Vec<i64>)
    ensures
        r@ == v@.map_values(|x: u64| x as i64),
{
    let mut out: Vec<i64> = Vec::new();
    let mut i: usize = 0;
    while i < v.len()
        invariant
            i <= v@.len(),
            out@ == v@.take(i as int).map_values(|x: u64| x as i64),
        decreases v@.len() - i,
    {
        out.push(v[i] as i64);
        proof {
            assert(v@.take(i + 1) =~= v@.take(i as int).push(v@[i as int]));
            assert(v@.take(i + 1).map_values(|x: u64| x as i64) =~= v@.take(i as int).map_values(
                |x: u64| x as i64,
            ).push(v@[i as int] as i64));
        }
        i = i + 1;
    }
    proof {
        assert(v@.take(v@.len() as int) =~= v@);
    }
    out
}

/// The booster's attributes.
fn xgboost_attributes_exec(m: XGBoostModel) -> (r: Vec<(String, LoweredAttribute)>)
    ensures
        attr_views(r@) == xgboost_attributes(m@),
{
    let ghost mv = m@;
    let XGBoostModel {
        version,
        feature_names: _,
        has_attributes,
        base_score,
        num_class,
        num_feature,
        num_target,
        objective,
        booster,
        num_parallel_tree,
        num_trees,
        tree_count,
        tree_info,
    } = m;
    let mut out: Vec<(String, LoweredAttribute)> = Vec::new();
    match &version {
        Some(v) => {
            out.push((String::from_str("version"), LoweredAttribute::Ints(version_ints(v))));
        },
        None => {},
    }
    proof {
        assert(attr_views(out@) =~= match mv.version {
            Some(v) => seq![("version"@, AttributeView::Ints(v.map_values(|x: u64| x as i64)))],
            None => Seq::<(Seq<char>, AttributeView)>::empty(),
        });
    }
    push_text(&mut out, "base_score", base_score);
    push_int(&mut out, "num_feature", num_feature);
    push_int(&mut out, "num_class", num_class);
    push_int(&mut out, "num_target", num_target);
    push_text(&mut out, "objective", objective);
    let ghost before = attr_views(out@);
    if has_attributes {
        out.push((String::from_str("attributes"), LoweredAttribute::Text(String::from_str("[object Object]"))));
    }
    proof {
        assert(attr_views(out@) =~= before + (if mv.has_attributes {
            seq![("attributes"@, AttributeView::Text(object_placeholder()))]
        } else {
            Seq::empty()
        }));
    }
    push_text(&mut out, "booster_type", booster);
    push_int(&mut out, "num_trees", num_trees);
    push_int(&mut out, "num_parallel_tree", num_parallel_tree);
    let ghost before = attr_views(out@);
    let texts = object_placeholders(tree_count);
    proof {
        assert(texts@.map_values(|s: String| s@) =~= placeholders(tree_count as nat));
    }
    out.push((String::from_str("trees"), LoweredAttribute::Texts(texts)));
    out.push((String::from_str("tree_info"), LoweredAttribute::Ints(tree_info)));
    proof {
        assert(attr_views(out@) =~= before + seq![
            ("trees"@, AttributeView::Texts(placeholders(mv.tree_count))),
            ("tree_info"@, AttributeView::Ints(mv.tree_info)),
        ]);
    }
    out
}

/// Lowers an XGBoost model under the given format name.
pub fn lower_xgboost_model(format: &str, m: XGBoostModel) -> (r: LoweredModel)
    ensures
        r@ == spec_lower_xgboost(format@, m@),
{
    let ghost mv = m@;
    let version = match &m.version {
        Some(v) => Some(join_version(v)),
        None => None,
    };
    let n = m.feature_names.len();
    let mut values: Vec<LoweredValue> = Vec::new();
    let mut node_inputs: Vec<Option<usize>> = Vec::new();
    let mut inputs: Vec<usize> = Vec::new();
    let mut i: usize = 0;
    while i < n
        invariant
            n == m.feature_names@.len(),
            i <= n,
            values@.len() == i,
            node_inputs@.len() == i,
            n < 1000 ==> inputs@.len() == i,
            n >= 1000 ==> inputs@.len() == 0,
            forall|j: int| 0 <= j < i ==> #[trigger] values@[j]@ == feature_value(m.feature_names@[j]@),
            forall|j: int| 0 <= j < i ==> #[trigger] node_inputs@[j] == Some(j as usize),
            forall|j: int| 0 <= j < inputs@.len() ==> #[trigger] inputs@[j] == j as usize,
        decreases n - i,
    {
        values.push(
            LoweredValue {
                name: Some(m.feature_names[i].clone()),
                initializer: None,
                element_type: None,
                shape: None,
                layout: None,
            },
        );
        node_inputs.push(Some(i));
        if n < 1000 {
            inputs.push(i);
        }
        i = i + 1;
    }
    let attributes = xgboost_attributes_exec(m);
    let node = LoweredNode {
        name: None,
        operator: String::from_str("xgboost.core.Booster"),
        inputs: node_inputs,
        outputs: Vec::new(),
        attributes,
        metadata: Vec::new(),
    };
    let mut nodes: Vec<LoweredNode> = Vec::new();
    nodes.push(node);
    let r = LoweredModel {
        format: String::from_str(format),
        version,
        values,
        nodes,
        inputs,
        outputs: Vec::new(),
        producer: None,
        producer_version: None,
    };
    proof {
        let s = spec_lower_xgboost(format@, mv);
        assert(r@.values =~= s.values);
        assert(node@.inputs =~= s.nodes[0].inputs);
        assert(node@.outputs =~= s.nodes[0].outputs);
        assert(node@.metadata =~= s.nodes[0].metadata);
        assert(node@ == s.nodes[0]);
        assert(r@.nodes =~= s.nodes);
        assert(r@.inputs =~= s.inputs);
        assert(r@.outputs =~= s.outputs);
    }
    r
}

/// The model of a pickled scikit-learn XGBoost classifier.
pub fn lower_sklearn_classifier() -> (r: LoweredModel)
    ensures
        r@ == spec_sklearn_classifier(),
{
    let node = LoweredNode {
        name: None,
        operator: String::from_str("xgboost.sklearn.XGBClassifier"),
        inputs: Vec::new(),
        outputs: Vec::new(),
        attributes: Vec::new(),
        metadata: Vec::new(),
    };
    let mut nodes: Vec<LoweredNode> = Vec::new();
    nodes.push(node);
    let r = LoweredModel {
        format: String::from_str("scikit-learn"),
        version: None,
        values: Vec::new(),
        nodes,
        inputs: Vec::new(),
        outputs: Vec::new(),
        producer: None,
        producer_version: None,
    };
    proof {
        let s = spec_sklearn_classifier();
        assert(node@.inputs =~= s.nodes[0].inputs);
        assert(node@.outputs =~= s.nodes[0].outputs);
        assert(node@.attributes =~= s.nodes[0].attributes);
        assert(node@.metadata =~= s.nodes[0].metadata);
        assert(r@.nodes =~= s.nodes);
        assert(r@.values =~= s.values);
        assert(r@.inputs =~= s.inputs);
        assert(r@.outputs =~= s.outputs);
    }
    r
}

impl XGBoostFormat {
    /// The model of data that pickles a scikit-learn XGBoost classifier, the
    /// first thing the format tries; none for other data, whose JSON or
    /// UBJSON document is read into an `XGBoostModel` and lowered by
    /// `lower_xgboost_model`.
    pub fn parse_sklearn_pickle(&self, data: &[u8]) -> (r: Option<LoweredModel>)
        ensures
            spec_is_xgboost_sklearn_pickle(data@) ==> (r matches Some(m) && m@ == spec_sklearn_classifier()),
            !spec_is_xgboost_sklearn_pickle(data@) ==> r is None,
    {
        if is_xgboost_sklearn_pickle(data) {
            Some(lower_sklearn_classifier())
        } else {
            None
        }
    }
}

/// Every index in a lowered XGBoost model names one of its values: the
/// booster's inputs and the graph's inputs.
pub proof fn lemma_xgboost_refs_in_range(format: Seq<char>, m: XGBoostModelView)
    requires
        m.feature_names.len() <= usize::MAX,
    ensures
        refs_in_range(spec_lower_xgboost(format, m)),
{
    let r = spec_lower_xgboost(format, m);
    assert forall|k: int, j: int|
        0 <= k < r.nodes.len() && 0 <= j < r.nodes[k].inputs.len() && #[trigger] r.nodes[k].inputs[j] is Some
            implies (r.nodes[k].inputs[j]->Some_0 as int) < r.values.len() by {
        assert(r.nodes[k].inputs[j] == Some(j as usize));
    }
}

} // verus!
