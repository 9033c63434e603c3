//! What the two configuration dialogs hold and decide. Drawing them is the
//! caller's part.

use vstd::prelude::*;
use crate::error::OutputKind;
use crate::files::{file_name, output_file_name};
use crate::model::DaeConvertConfig;

verus! {

/// Which parts of a scene are exported to the binary model format, and where
/// to.
#[derive(Debug, PartialEq, Eq)]
pub struct SceneExportConfig {
    pub base_filename: String,
    pub export_mesh: bool,
    pub export_skeleton: bool,
    pub export_modl: bool,
    pub output_directory: String,
}

impl Default for SceneExportConfig {
    fn default() -> (r: Self)
        ensures
            r.base_filename@ == "model"@,
            r.export_mesh,
            r.export_skeleton,
            r.export_modl,
            r.output_directory@ == Seq::<char>::empty(),
    {
        SceneExportConfig {
            base_filename: "model".to_owned(),
            export_mesh: true,
            export_skeleton: true,
            export_modl: true,
            output_directory: String::new(),
        }
    }
}

impl Clone for SceneExportConfig {
    fn clone(&self) -> (r: Self)
        ensures
            r.base_filename@ == self.base_filename@,
            r.output_directory@ == self.output_directory@,
            r.export_mesh == self.export_mesh,
            r.export_skeleton == self.export_skeleton,
            r.export_modl == self.export_modl,
    {
        SceneExportConfig {
            base_filename: self.base_filename.clone(),
            export_mesh: self.export_mesh,
            export_skeleton: self.export_skeleton,
            export_modl: self.export_modl,
            output_directory: self.output_directory.clone(),
        }
    }
}

impl SceneExportConfig {
    /// A complete configuration: a directory, a base name, and something to
    /// export.
    pub open spec fn complete(self) -> bool {
        self.output_directory@.len() > 0 && self.base_filename@.len() > 0 && (self.export_mesh
            || self.export_skeleton || self.export_modl)
    }

    /// Whether the export may start.
    pub fn can_export(&self) -> (r: bool)
        ensures
            r == self.complete(),
    {
        let named = !self.output_directory.as_str().is_empty()
            && !self.base_filename.as_str().is_empty();
        named && (self.export_mesh || self.export_skeleton || self.export_modl)
    }
}

/// The export dialog: its configuration, and whether it is shown.
#[derive(Debug, PartialEq, Eq)]
pub struct SceneExportDialogState {
    pub config: SceneExportConfig,
    pub is_open: bool,
}

impl Default for SceneExportDialogState {
    fn default() -> (r: Self)
        ensures
            !r.is_open,
            r.config.base_filename@ == "model"@,
            r.config.export_mesh,
            r.config.export_skeleton,
            r.config.export_modl,
            r.config.output_directory@ == Seq::<char>::empty(),
    {
        SceneExportDialogState { config: SceneExportConfig::default(), is_open: false }
    }
}

impl SceneExportDialogState {
    /// Ends one showing of the dialog. A click on "Export" hands out the
    /// configuration and closes the dialog; a click on "Cancel" closes it.
    pub fn finish(&mut self, export_clicked: bool, cancel_clicked: bool) -> (r: Option<
        SceneExportConfig,
    >)
        ensures
            r is Some <==> export_clicked,
            r is Some ==> r->0.base_filename@ == old(self).config.base_filename@
                && r->0.output_directory@ == old(self).config.output_directory@
                && r->0.export_mesh == old(self).config.export_mesh && r->0.export_skeleton == old(
                self,
            ).config.export_skeleton && r->0.export_modl == old(self).config.export_modl,
            final(self).is_open == (old(self).is_open && !export_clicked && !cancel_clicked),
            final(self).config == old(self).config,
    {
        let result = if export_clicked {
            Some(self.config.clone())
        } else {
            None
        };
        if export_clicked || cancel_clicked {
            self.is_open = false;
        }
        result
    }
}

/// What a scene holds that can be exported.
#[derive(Clone, Copy, Debug, PartialEq, Eq, Structural)]
pub struct SceneParts {
    pub mesh: bool,
    pub skeleton: bool,
    pub model: bool,
}

/// The kinds of file that an export writes, in the order in which it writes
/// them: mesh, skeleton, model, each if it is asked for and the scene holds
/// it.
pub open spec fn export_kinds(config: SceneExportConfig, parts: SceneParts) -> Seq<OutputKind> {
    (if config.export_mesh && parts.mesh {
        seq![OutputKind::Mesh]
    } else {
        Seq::empty()
    }) + (if config.export_skeleton && parts.skeleton {
        seq![OutputKind::Skeleton]
    } else {
        Seq::empty()
    }) + (if config.export_modl && parts.model {
        seq![OutputKind::Model]
    } else {
        Seq::empty()
    })
}

/// The files that an export writes, by kind and name, in order.
pub fn plan_scene_export(config: &SceneExportConfig, parts: SceneParts) -> (r: Vec<
    (OutputKind, String),
>)
    ensures
        r@.len() == export_kinds(*config, parts).len(),
        forall|i: int|
            0 <= i < r@.len() ==> r@[i].0 == export_kinds(*config, parts)[i] && r@[i].1@
                == file_name(config.base_filename@, r@[i].0.extension()),
{
    let mut out: Vec<(OutputKind, String)> = Vec::new();
    if config.export_mesh && parts.mesh {
        out.push((OutputKind::Mesh, output_file_name(config.base_filename.as_str(), OutputKind::Mesh)));
    }
    if config.export_skeleton && parts.skeleton {
        out.push(
            (
                OutputKind::Skeleton,
                output_file_name(config.base_filename.as_str(), OutputKind::Skeleton),
            ),
        );
    }
    if config.export_modl && parts.model {
        out.push(
            (OutputKind::Model, output_file_name(config.base_filename.as_str(), OutputKind::Model)),
        );
    }
    out
}

/// The conversion dialog: its configuration, whether it is shown, and the
/// document chosen.
#[derive(Debug, PartialEq, Eq)]
pub struct DaeConvertDialogState {
    pub config: DaeConvertConfig,
    pub is_open: bool,
    pub selected_dae_file: Option<String>,
}

impl Default for DaeConvertDialogState {
    fn default() -> (r: Self)
        ensures
            !r.is_open,
            r.selected_dae_file is None,
            r.config.base_filename@ == "model"@,
            r.config.output_directory@ == Seq::<char>::empty(),
    {
        DaeConvertDialogState {
            config: DaeConvertConfig::default(),
            is_open: false,
            selected_dae_file: None,
        }
    }
}

impl DaeConvertDialogState {
    /// A document is chosen, and a directory and a base name are given.
    pub open spec fn complete(self) -> bool {
        self.selected_dae_file is Some && self.config.output_directory@.len() > 0
            && self.config.base_filename@.len() > 0
    }

    /// Whether the conversion may start.
    pub fn can_convert(&self) -> (r: bool)
        ensures
            r == self.complete(),
    {
        self.selected_dae_file.is_some() && !self.config.output_directory.as_str().is_empty()
            && !self.config.base_filename.as_str().is_empty()
    }

    /// Ends one showing of the dialog. A click on "Convert" hands out the
    /// configuration and closes the dialog; a click on "Cancel" closes it.
    pub fn finish(&mut self, convert_clicked: bool, cancel_clicked: bool) -> (r: Option<
        DaeConvertConfig,
    >)
        ensures
            r is Some <==> convert_clicked,
            r is Some ==> r->0.base_filename@ == old(self).config.base_filename@
                && r->0.output_directory@ == old(self).config.output_directory@
                && r->0.scale_factor == old(self).config.scale_factor && r->0.up_axis_conversion
                == old(self).config.up_axis_conversion,
            final(self).is_open == (old(self).is_open && !convert_clicked && !cancel_clicked),
            final(self).config == old(self).config,
            final(self).selected_dae_file == old(self).selected_dae_file,
    {
        let result = if convert_clicked {
            Some(self.config.clone())
        } else {
            None
        };
        if convert_clicked || cancel_clicked {
            self.is_open = false;
        }
        result
    }
}

} // verus!
