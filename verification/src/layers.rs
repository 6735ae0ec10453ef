//! The layers of the configuration, and the project folder they name.
use crate::path::{AbsolutePath, PathView};
use vstd::prelude::*;

verus! {

/// Where a layer of the configuration comes from.
#[derive(Debug, PartialEq, Eq)]
pub enum ConfigLayerSource {
    /// The `.codex` folder of a project.
    Project { dot_codex_folder: AbsolutePath },
    /// The user, the system, the command line and so on.
    Other,
}

/// One layer of the configuration.
#[derive(Debug, PartialEq, Eq)]
pub struct ConfigLayer {
    pub name: ConfigLayerSource,
    pub disabled: bool,
}

/// The layers of the configuration, the lowest precedence first.
#[derive(Debug, PartialEq, Eq)]
pub struct ConfigLayerStack {
    pub layers: Vec<ConfigLayer>,
}

/// What of the configuration decides where goal data lives.
#[derive(Debug, PartialEq, Eq)]
pub struct GoalConfig {
    pub config_layer_stack: ConfigLayerStack,
    pub cwd: AbsolutePath,
}

impl ConfigLayer {
    /// Whether the layer is in force and comes from a project.
    pub open spec fn is_project(self) -> bool {
        !self.disabled && self.name is Project
    }
}

/// What an optional path is made of.
pub open spec fn optional_path(path: Option<AbsolutePath>) -> Option<PathView> {
    match path {
        Some(p) => Some(p@),
        None => None,
    }
}

/// The folder of the lowest layer that is in force and comes from a project.
pub open spec fn lowest_project_folder(layers: Seq<ConfigLayer>) -> Option<PathView>
    decreases layers.len(),
{
    if layers.len() == 0 {
        None
    } else if layers[0].is_project() {
        Some(layers[0].name->dot_codex_folder@)
    } else {
        lowest_project_folder(layers.skip(1))
    }
}

/// The folder that the lowest project layer names: the one of the outermost
/// project.
pub fn top_level_project_dot_codex_from_layers(stack: &ConfigLayerStack) -> (found: Option<
    AbsolutePath,
>)
    ensures
        optional_path(found) == lowest_project_folder(stack.layers@),
{
    let mut i: usize = 0;
    proof {
        assert(stack.layers@.skip(0) =~= stack.layers@);
    }
    while i < stack.layers.len()
        invariant
            i <= stack.layers@.len(),
            lowest_project_folder(stack.layers@) == lowest_project_folder(
                stack.layers@.skip(i as int),
            ),
        decreases stack.layers@.len() - i,
    {
        let layer: &ConfigLayer = &stack.layers[i];
        proof {
            assert(stack.layers@.skip(i as int)[0] == *layer);
            assert(stack.layers@.skip(i as int).skip(1) =~= stack.layers@.skip(i + 1));
        }
        if !layer.disabled {
            match &layer.name {
                ConfigLayerSource::Project { dot_codex_folder } => {
                    return Some(dot_codex_folder.clone());
                },
                ConfigLayerSource::Other => {},
            }
        }
        i = i + 1;
    }
    None
}

/// The folder of the outermost project that the configuration knows of.
pub fn top_level_project_dot_codex(config: &GoalConfig) -> (found: Option<AbsolutePath>)
    ensures
        optional_path(found) == lowest_project_folder(config.config_layer_stack.layers@),
{
    top_level_project_dot_codex_from_layers(&config.config_layer_stack)
}

/// The first project layer from below that is in force decides, whatever lies
/// above it; without one there is no folder.
pub proof fn law_outermost_project_wins(layers: Seq<ConfigLayer>)
    ensures
        forall|at: int|
            0 <= at < layers.len() && (#[trigger] layers[at]).is_project() && (forall|i: int|
                0 <= i < at ==> !(#[trigger] layers[i]).is_project()) ==> lowest_project_folder(
                layers,
            ) == Some(layers[at].name->dot_codex_folder@),
        lowest_project_folder(layers) is None <==> forall|i: int|
            0 <= i < layers.len() ==> !(#[trigger] layers[i]).is_project(),
    decreases layers.len(),
{
    if layers.len() > 0 {
        let rest = layers.skip(1);
        law_outermost_project_wins(rest);
        assert(forall|i: int| 0 <= i < rest.len() ==> rest[i] == layers[i + 1]);
        assert forall|at: int|
            0 <= at < layers.len() && (#[trigger] layers[at]).is_project() && (forall|i: int|
                0 <= i < at ==> !(#[trigger] layers[i]).is_project()) implies lowest_project_folder(
            layers,
        ) == Some(layers[at].name->dot_codex_folder@) by {
            if at > 0 {
                assert(!layers[0].is_project());
                assert(rest[at - 1].is_project());
            }
        }
        if lowest_project_folder(layers) is None {
            assert forall|i: int| 0 <= i < layers.len() implies !(
            #[trigger] layers[i]).is_project() by {
                if i > 0 {
                    assert(!rest[i - 1].is_project());
                }
            }
        }
        if forall|i: int| 0 <= i < layers.len() ==> !(#[trigger] layers[i]).is_project() {
            assert(!layers[0].is_project());
        }
    }
}

/// The folder is that of a layer that is not disabled and comes from a project,
/// and no such layer lies below it; there is none exactly where no layer is such.
/// Layers that are disabled or come from elsewhere have no say.
pub proof fn law_only_project_layers_in_force_count(layers: Seq<ConfigLayer>)
    ensures
        match lowest_project_folder(layers) {
            Some(folder) => exists|at: int|
                {
                    &&& 0 <= at < layers.len()
                    &&& !(#[trigger] layers[at]).disabled
                    &&& layers[at].name matches ConfigLayerSource::Project { dot_codex_folder }
                        && folder == dot_codex_folder@
                    &&& forall|i: int|
                        0 <= i < at ==> (#[trigger] layers[i]).disabled || layers[i].name is Other
                },
            None => forall|i: int|
                0 <= i < layers.len() ==> (#[trigger] layers[i]).disabled || layers[i].name is Other,
        },
    decreases layers.len(),
{
    if layers.len() > 0 {
        let rest = layers.skip(1);
        assert(forall|i: int| 0 <= i < rest.len() ==> rest[i] == layers[i + 1]);
        if layers[0].disabled || layers[0].name is Other {
            law_only_project_layers_in_force_count(rest);
            match lowest_project_folder(rest) {
                Some(folder) => {
                    let at = choose|at: int|
                        {
                            &&& 0 <= at < rest.len()
                            &&& !(#[trigger] rest[at]).disabled
                            &&& rest[at].name matches ConfigLayerSource::Project {
                                dot_codex_folder,
                            } && folder == dot_codex_folder@
                            &&& forall|i: int|
                                0 <= i < at ==> (#[trigger] rest[i]).disabled
                                    || rest[i].name is Other
                        };
                    assert(!layers[at + 1].disabled);
                    assert forall|i: int| 0 <= i < at + 1 implies (#[trigger] layers[i]).disabled
                        || layers[i].name is Other by {
                        if i > 0 {
                            assert(rest[i - 1].disabled || rest[i - 1].name is Other);
                        }
                    }
                },
                None => {
                    assert forall|i: int| 0 <= i < layers.len() implies (
                    #[trigger] layers[i]).disabled || layers[i].name is Other by {
                        if i > 0 {
                            assert(rest[i - 1].disabled || rest[i - 1].name is Other);
                        }
                    }
                },
            }
        }
    }
}

/// A path that may be missing is what it is.
pub proof fn law_optional_paths_hide_nothing(path: AbsolutePath)
    ensures
        optional_path(Some(path)) == Some(path@),
        optional_path(None) is None,
{
}

} // verus!
