//! Choosing the TorchScript source of an archive.
use vstd::prelude::*;
use vstd::string::StringSliceAdditionalSpecFns;
use vstd::string::StringExecFns;
use vstd::utf8::encode_utf8;
use crate::chars::{index_of, index_of_exec, strip_prefix, str_strip_prefix};
use crate::error::ModelError;
use crate::pytorch::entries::first_where;
use crate::text::{contains_bytes, spec_contains_bytes};
use crate::pytorch::names::{logical_zip_path, spec_logical_zip_path};
use crate::pytorch::zip::{ZipArchive, ZipEntry, ZipEntryView, spec_decoded, spec_entry_bytes};
use crate::text::{has_suffix, str_chars, str_ends_with, str_eq};

verus! {

/// A rule that picks the entry holding an archive's TorchScript source.
pub enum SourceRule {
    /// The entry whose path inside the model is this one.
    Exact(&'static str),
    /// The entry whose path is this one and whose text holds the marker.
    Containing(&'static str, &'static str),
    /// A Python file directly in `code/__torch__/`.
    FlatTorch,
}

pub enum SourceRuleView {
    Exact(Seq<char>),
    Containing(Seq<char>, Seq<char>),
    FlatTorch,
}

impl View for SourceRule {
    type V = SourceRuleView;

    open spec fn view(&self) -> SourceRuleView {
        match self {
            SourceRule::Exact(p) => SourceRuleView::Exact(p@),
            SourceRule::Containing(p, m) => SourceRuleView::Containing(p@, m@),
            SourceRule::FlatTorch => SourceRuleView::FlatTorch,
        }
    }
}

/// Whether an entry meets a rule.
pub open spec fn rule_holds(rule: SourceRuleView, e: ZipEntryView) -> bool {
    let logical = spec_logical_zip_path(e.name);
    match rule {
        SourceRuleView::Exact(p) => logical == p,
        SourceRuleView::Containing(p, marker) => logical == p && (spec_entry_bytes(
            spec_decoded(e),
            e.uncompressed_size,
        ) matches Ok(bytes) && spec_contains_bytes(bytes, encode_utf8(marker))),
        SourceRuleView::FlatTorch => strip_prefix(logical, "code/__torch__/"@) matches Some(rest)
            && has_suffix(logical, ".py"@) && index_of(rest, '/', 0) is None,
    }
}

/// The rules, in the order in which they are tried.
pub open spec fn spec_source_rules() -> Seq<SourceRuleView> {
    seq![
        SourceRuleView::Exact("code/__torch__.py"@),
        SourceRuleView::Exact("code/__torch__/model/context_net/___torch_mangle_452.py"@),
        SourceRuleView::Exact("code/__torch__/quantization/test_backward_compatibility/___torch_mangle_1.py"@),
        SourceRuleView::Exact("code/__torch__/torchvision/models/alexnet/___torch_mangle_30.py"@),
        SourceRuleView::Exact("code/__torch__/model/demo_model/TFModel.py"@),
        SourceRuleView::Exact("code/__torch__/transformers/models/gpt2/modeling_gpt2.py"@),
        SourceRuleView::Exact("code/__torch__/torch/nn/modules/transformer.py"@),
        SourceRuleView::Exact("code/__torch__/torch/nn/modules/activation/___torch_mangle_3.py"@),
        SourceRuleView::Exact("code/__torch__/mlutils.py"@),
        SourceRuleView::Exact("code/__torch__/model/model.py"@),
        SourceRuleView::Exact("code/__torch__/___torch_mangle_2.py"@),
        SourceRuleView::Exact("code/__torch__/torch/nn/modules/conv/___torch_mangle_467.py"@),
        SourceRuleView::Exact("code/__torch__/pytorchvideo/accelerator/model_zoo/mobile_cpu/efficient_x3d/___torch_mangle_8401.py"@),
        SourceRuleView::Exact("code/__torch__/multimodal/model/multimodal_transformer/___torch_mangle_9591.py"@),
        SourceRuleView::Exact("code/__torch__/data/wav2mel.py"@),
        SourceRuleView::Exact("code/__torch__/torchaudio/models/wav2vec2/model/___torch_mangle_94.py"@),
        SourceRuleView::Exact("code/__torch__/onnx2torch/node_converters/slice/___torch_mangle_1746.py"@),
        SourceRuleView::Exact("code/__torch__/___torch_mangle_631.py"@),
        SourceRuleView::Exact("code/__torch__/torchvision/models/detection/mask_rcnn.py"@),
        SourceRuleView::Exact("code/__torch__/torch/fx/graph_module/___torch_mangle_606.py"@),
        SourceRuleView::Exact("code/__torch__/torchvision/models/quantization/mobilenetv2/___torch_mangle_7875.py"@),
        SourceRuleView::Exact("code/__torch__/transformers/models/bert/modeling_bert.py"@),
        SourceRuleView::Exact("code/__torch__/timm/models/vision_transformer.py"@),
        SourceRuleView::Containing("code/__torch__/model/retinanet.py"@, "class RetinaNet(Module):"@),
        SourceRuleView::Containing("code/__torch__/___torch_mangle_483.py"@, "class ChannelsLastModel(Module):"@),
        SourceRuleView::Containing("code/__torch__/torch/fx/graph_module.py"@, "class GraphModule(Module):"@),
        SourceRuleView::Exact("code/__torch__/torch/nn/modules/conv/___torch_mangle_2610.py"@),
        SourceRuleView::Exact("code/__torch__/torch/nn/modules/conv/___torch_mangle_3184.py"@),
        SourceRuleView::Exact("code/__torch__/___torch_mangle_36.py"@),
        SourceRuleView::Exact("code/__torch__/torchvision/models/quantization/inception.py"@),
        SourceRuleView::Exact("code/__torch__/___torch_mangle_208.py"@),
        SourceRuleView::Exact("code/__torch__/___torch_mangle_89.py"@),
        SourceRuleView::Exact("code/__torch__/torch/nn/quantized/modules.py"@),
        SourceRuleView::Exact("code/__torch__/torch/nn/modules/conv/___torch_mangle_3656.py"@),
        SourceRuleView::Exact("code/__torch__/torch/nn/modules/conv/___torch_mangle_3631.py"@),
        SourceRuleView::Exact("code/__torch__/torchvision/models/detection/ssd/___torch_mangle_169.py"@),
        SourceRuleView::Containing("code/__torch__/diffusers/pipelines/stable_diffusion/safety_checker.py"@, "class StableDiffusionSafetyChecker(Module):"@),
        SourceRuleView::Containing("code/__torch__/python_coreml_stable_diffusion/unet.py"@, "class UNet2DConditionModel(Module):"@),
        SourceRuleView::Exact("code/__torch__/transformers/models/clip/modeling_clip.py"@),
        SourceRuleView::Exact("code/__torch__/torch/nn/modules/normalization.py"@),
        SourceRuleView::Exact("code/__torch__/torch/nn/modules/normalization/___torch_mangle_0.py"@),
        SourceRuleView::Exact("code/__torch__/detectron2/export/caffe2_modeling.py"@),
        SourceRuleView::Exact("code/__torch__/torch/nn/modules/module.py"@),
        SourceRuleView::Exact("code/__torch__/model/fastspeech2/___torch_mangle_139.py"@),
        SourceRuleView::Exact("code/__torch__/torch/nn/modules/conv/___torch_mangle_3829.py"@),
        SourceRuleView::Exact("code/__torch__/torchvision/models/video/resnet.py"@),
        SourceRuleView::Exact("code/__torch__/custom.py"@),
        SourceRuleView::Exact("code/__torch__/torchvision/models/detection/faster_rcnn.py"@),
        SourceRuleView::FlatTorch,
        SourceRuleView::Exact("code/__torch__/torchvision/models/alexnet.py"@),
        SourceRuleView::Exact("code/__torch__/ultralytics/nn/tasks/___torch_mangle_1806.py"@),
        SourceRuleView::Exact("code/__torch__/torchvision/models/segmentation/deeplabv3/___torch_mangle_269.py"@),
        SourceRuleView::Exact("code/__torch__/torchvision/models/segmentation/deeplabv3.py"@),
        SourceRuleView::Exact("code/__torch__/transformers/models/bert/modeling_bert.py"@),
        SourceRuleView::Exact("code/__torch__/torchvision/models/densenet.py"@),
        SourceRuleView::Exact("code/__torch__/fairseq/modules/lightweight_convolution/___torch_mangle_9.py"@),
        SourceRuleView::Exact("code/__torch__/timm/models/vision_transformer.py"@),
        SourceRuleView::Exact("code/__torch__/torchvision/models/inception.py"@),
        SourceRuleView::Exact("code/__torch__/torchvision/models/mobilenet.py"@),
        SourceRuleView::Exact("code/__torch__/models/rpn/___torch_mangle_438.py"@),
        SourceRuleView::Exact("code/__torch__/torchvision/models/inception/___torch_mangle_1756.py"@),
        SourceRuleView::Exact("code/__torch__/torchvision/models/mobilenet/___torch_mangle_2355.py"@),
        SourceRuleView::Exact("code/__torch__/torchvision/models/densenet/___torch_mangle_770.py"@),
        SourceRuleView::Exact("code/__torch__/torch/nn/modules/conv.py"@),
    ]
}

/// The rules, in the order in which they are tried.
pub fn source_rules() -> (r: [SourceRule; 64])
    ensures
        r@.map_values(|rule: SourceRule| rule@) == spec_source_rules(),
{
    let rules: [SourceRule; 64] = [
        SourceRule::Exact("code/__torch__.py"),
        SourceRule::Exact("code/__torch__/model/context_net/___torch_mangle_452.py"),
        SourceRule::Exact("code/__torch__/quantization/test_backward_compatibility/___torch_mangle_1.py"),
        SourceRule::Exact("code/__torch__/torchvision/models/alexnet/___torch_mangle_30.py"),
        SourceRule::Exact("code/__torch__/model/demo_model/TFModel.py"),
        SourceRule::Exact("code/__torch__/transformers/models/gpt2/modeling_gpt2.py"),
        SourceRule::Exact("code/__torch__/torch/nn/modules/transformer.py"),
        SourceRule::Exact("code/__torch__/torch/nn/modules/activation/___torch_mangle_3.py"),
        SourceRule::Exact("code/__torch__/mlutils.py"),
        SourceRule::Exact("code/__torch__/model/model.py"),
        SourceRule::Exact("code/__torch__/___torch_mangle_2.py"),
        SourceRule::Exact("code/__torch__/torch/nn/modules/conv/___torch_mangle_467.py"),
        SourceRule::Exact("code/__torch__/pytorchvideo/accelerator/model_zoo/mobile_cpu/efficient_x3d/___torch_mangle_8401.py"),
        SourceRule::Exact("code/__torch__/multimodal/model/multimodal_transformer/___torch_mangle_9591.py"),
        SourceRule::Exact("code/__torch__/data/wav2mel.py"),
        SourceRule::Exact("code/__torch__/torchaudio/models/wav2vec2/model/___torch_mangle_94.py"),
        SourceRule::Exact("code/__torch__/onnx2torch/node_converters/slice/___torch_mangle_1746.py"),
        SourceRule::Exact("code/__torch__/___torch_mangle_631.py"),
        SourceRule::Exact("code/__torch__/torchvision/models/detection/mask_rcnn.py"),
        SourceRule::Exact("code/__torch__/torch/fx/graph_module/___torch_mangle_606.py"),
        SourceRule::Exact("code/__torch__/torchvision/models/quantization/mobilenetv2/___torch_mangle_7875.py"),
        SourceRule::Exact("code/__torch__/transformers/models/bert/modeling_bert.py"),
        SourceRule::Exact("code/__torch__/timm/models/vision_transformer.py"),
        SourceRule::Containing("code/__torch__/model/retinanet.py", "class RetinaNet(Module):"),
        SourceRule::Containing("code/__torch__/___torch_mangle_483.py", "class ChannelsLastModel(Module):"),
        SourceRule::Containing("code/__torch__/torch/fx/graph_module.py", "class GraphModule(Module):"),
        SourceRule::Exact("code/__torch__/torch/nn/modules/conv/___torch_mangle_2610.py"),
        SourceRule::Exact("code/__torch__/torch/nn/modules/conv/___torch_mangle_3184.py"),
        SourceRule::Exact("code/__torch__/___torch_mangle_36.py"),
        SourceRule::Exact("code/__torch__/torchvision/models/quantization/inception.py"),
        SourceRule::Exact("code/__torch__/___torch_mangle_208.py"),
        SourceRule::Exact("code/__torch__/___torch_mangle_89.py"),
        SourceRule::Exact("code/__torch__/torch/nn/quantized/modules.py"),
        SourceRule::Exact("code/__torch__/torch/nn/modules/conv/___torch_mangle_3656.py"),
        SourceRule::Exact("code/__torch__/torch/nn/modules/conv/___torch_mangle_3631.py"),
        SourceRule::Exact("code/__torch__/torchvision/models/detection/ssd/___torch_mangle_169.py"),
        SourceRule::Containing("code/__torch__/diffusers/pipelines/stable_diffusion/safety_checker.py", "class StableDiffusionSafetyChecker(Module):"),
        SourceRule::Containing("code/__torch__/python_coreml_stable_diffusion/unet.py", "class UNet2DConditionModel(Module):"),
        SourceRule::Exact("code/__torch__/transformers/models/clip/modeling_clip.py"),
        SourceRule::Exact("code/__torch__/torch/nn/modules/normalization.py"),
        SourceRule::Exact("code/__torch__/torch/nn/modules/normalization/___torch_mangle_0.py"),
        SourceRule::Exact("code/__torch__/detectron2/export/caffe2_modeling.py"),
        SourceRule::Exact("code/__torch__/torch/nn/modules/module.py"),
        SourceRule::Exact("code/__torch__/model/fastspeech2/___torch_mangle_139.py"),
        SourceRule::Exact("code/__torch__/torch/nn/modules/conv/___torch_mangle_3829.py"),
        SourceRule::Exact("code/__torch__/torchvision/models/video/resnet.py"),
        SourceRule::Exact("code/__torch__/custom.py"),
        SourceRule::Exact("code/__torch__/torchvision/models/detection/faster_rcnn.py"),
        SourceRule::FlatTorch,
        SourceRule::Exact("code/__torch__/torchvision/models/alexnet.py"),
        SourceRule::Exact("code/__torch__/ultralytics/nn/tasks/___torch_mangle_1806.py"),
        SourceRule::Exact("code/__torch__/torchvision/models/segmentation/deeplabv3/___torch_mangle_269.py"),
        SourceRule::Exact("code/__torch__/torchvision/models/segmentation/deeplabv3.py"),
        SourceRule::Exact("code/__torch__/transformers/models/bert/modeling_bert.py"),
        SourceRule::Exact("code/__torch__/torchvision/models/densenet.py"),
        SourceRule::Exact("code/__torch__/fairseq/modules/lightweight_convolution/___torch_mangle_9.py"),
        SourceRule::Exact("code/__torch__/timm/models/vision_transformer.py"),
        SourceRule::Exact("code/__torch__/torchvision/models/inception.py"),
        SourceRule::Exact("code/__torch__/torchvision/models/mobilenet.py"),
        SourceRule::Exact("code/__torch__/models/rpn/___torch_mangle_438.py"),
        SourceRule::Exact("code/__torch__/torchvision/models/inception/___torch_mangle_1756.py"),
        SourceRule::Exact("code/__torch__/torchvision/models/mobilenet/___torch_mangle_2355.py"),
        SourceRule::Exact("code/__torch__/torchvision/models/densenet/___torch_mangle_770.py"),
        SourceRule::Exact("code/__torch__/torch/nn/modules/conv.py"),
    ];
    assert(rules@.map_values(|rule: SourceRule| rule@) =~= spec_source_rules());
    rules
}

/// The name and the path inside the model of the first entry that meets
/// the first rule, from rule `k` on, that some entry meets.
pub open spec fn source_entry_from(entries: Seq<ZipEntryView>, rules: Seq<SourceRuleView>, k: int) -> Option<
    (Seq<char>, Seq<char>),
>
    decreases rules.len() - k,
{
    if k < 0 || k >= rules.len() {
        None
    } else {
        match first_where(entries, |e: ZipEntryView| rule_holds(rules[k], e), 0) {
            Some(i) => Some((entries[i].name, spec_logical_zip_path(entries[i].name))),
            None => source_entry_from(entries, rules, k + 1),
        }
    }
}

/// The name and the path of a found entry.
pub open spec fn found_view<'a>(r: Option<(&'a str, String)>) -> Option<(Seq<char>, Seq<char>)> {
    match r {
        Some((name, logical)) => Some((name@, logical@)),
        None => None,
    }
}

/// Whether an entry meets a rule.
pub fn rule_holds_exec(rule: &SourceRule, entry: &ZipEntry) -> (r: bool)
    ensures
        r == rule_holds(rule@, entry@),
{
    let logical = logical_zip_path(entry.name);
    match rule {
        SourceRule::Exact(p) => str_eq(logical, p),
        SourceRule::Containing(p, marker) => {
            if !str_eq(logical, p) {
                return false;
            }
            match entry.bytes() {
                Ok(bytes) => contains_bytes(bytes.as_slice(), marker.as_bytes()),
                Err(_) => false,
            }
        },
        SourceRule::FlatTorch => {
            let rest = match str_strip_prefix(logical, "code/__torch__/") {
                Some(rest) => rest,
                None => return false,
            };
            if !str_ends_with(logical, ".py") {
                return false;
            }
            let chars = str_chars(rest);
            index_of_exec(chars.as_slice(), '/', 0).is_none()
        },
    }
}

impl<'a> ZipArchive<'a> {
    /// The name and the path of the first entry that meets `rule`.
    pub fn first_entry_for(&self, rule: &SourceRule) -> (r: Option<(&'a str, String)>)
        ensures
            found_view(r) == (match first_where(self@, |e: ZipEntryView| rule_holds(rule@, e), 0) {
                Some(i) => Some((self@[i].name, spec_logical_zip_path(self@[i].name))),
                None => None,
            }),
    {
        let ghost p = |e: ZipEntryView| rule_holds(rule@, e);
        proof {
            crate::pytorch::entries::lemma_first_where_bounds(self@, p, 0);
        }
        let mut i: usize = 0;
        while i < self.entries.len()
            invariant
                i <= self@.len(),
                p == (|e: ZipEntryView| rule_holds(rule@, e)),
                first_where(self@, p, i as int) == first_where(self@, p, 0),
            decreases self@.len() - i,
        {
            if rule_holds_exec(rule, &self.entries[i]) {
                let name = self.entries[i].name;
                return Some((name, String::from_str(logical_zip_path(name))));
            }
            i = i + 1;
        }
        None
    }

    /// The entry whose path inside the model is `expected`.
    pub fn torchscript_source_entry_logical(&self, expected: &'static str) -> (r: Option<(&'a str, String)>)
        ensures
            found_view(r) == (match first_where(
                self@,
                |e: ZipEntryView| rule_holds(SourceRuleView::Exact(expected@), e),
                0,
            ) {
                Some(i) => Some((self@[i].name, spec_logical_zip_path(self@[i].name))),
                None => None,
            }),
    {
        self.first_entry_for(&SourceRule::Exact(expected))
    }

    /// The entry whose path inside the model is `expected` and whose text
    /// holds `marker`.
    pub fn torchscript_source_entry_logical_containing(
        &self,
        expected: &'static str,
        marker: &'static str,
    ) -> (r: Option<(&'a str, String)>)
        ensures
            found_view(r) == (match first_where(
                self@,
                |e: ZipEntryView| rule_holds(SourceRuleView::Containing(expected@, marker@), e),
                0,
            ) {
                Some(i) => Some((self@[i].name, spec_logical_zip_path(self@[i].name))),
                None => None,
            }),
    {
        self.first_entry_for(&SourceRule::Containing(expected, marker))
    }

    /// The entry that holds the archive's TorchScript source: the first entry
    /// that meets the first rule that some entry meets.
    pub fn torchscript_source_entry(&self) -> (r: Option<(&'a str, String)>)
        ensures
            found_view(r) == source_entry_from(self@, spec_source_rules(), 0),
    {
        let rules = source_rules();
        let mut k: usize = 0;
        while k < 64
            invariant
                rules@.map_values(|rule: SourceRule| rule@) == spec_source_rules(),
                k <= 64,
                source_entry_from(self@, spec_source_rules(), k as int) == source_entry_from(
                    self@,
                    spec_source_rules(),
                    0,
                ),
            decreases 64 - k,
        {
            let found = self.first_entry_for(&rules[k]);
            proof {
                assert(spec_source_rules()[k as int] == rules@[k as int]@);
                assert((|e: ZipEntryView| rule_holds(rules@[k as int]@, e)) =~= (|e: ZipEntryView|
                    rule_holds(spec_source_rules()[k as int], e)));
            }
            if found.is_some() {
                return found;
            }
            k = k + 1;
        }
        None
    }
}

} // verus!
