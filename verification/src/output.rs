//! Plain-value image of a compositor output (monitor).
//!
//! The transport resolves its output proxies to these records; inside the
//! library an output is identified by its wire id, and two references to
//! the same output compare equal on that id alone.  The descriptive
//! fields are what the output collaborator reported when the reference
//! was handed in, and can be refreshed through the engine.

use vstd::prelude::*;

verus! {

/// What the output collaborator reports of one output.
#[derive(Debug)]
pub struct OutputInfoData {
    pub name: Option<String>,
    pub description: Option<String>,
    pub loc_x: i32,
    pub loc_y: i32,
    pub size_w: i32,
    pub size_h: i32,
    pub global_id: u32,
}

/// Ghost image of [`OutputInfoData`].
#[verifier::ext_equal]
pub ghost struct OutputInfoModel {
    pub name: Option<Seq<char>>,
    pub description: Option<Seq<char>>,
    pub loc_x: i32,
    pub loc_y: i32,
    pub size_w: i32,
    pub size_h: i32,
    pub global_id: u32,
}

impl View for OutputInfoData {
    type V = OutputInfoModel;

    open spec fn view(&self) -> OutputInfoModel {
        OutputInfoModel {
            name: match self.name {
                Some(s) => Some(s@),
                None => None,
            },
            description: match self.description {
                Some(s) => Some(s@),
                None => None,
            },
            loc_x: self.loc_x,
            loc_y: self.loc_y,
            size_w: self.size_w,
            size_h: self.size_h,
            global_id: self.global_id,
        }
    }
}

impl Clone for OutputInfoData {
    /// A copy that reads back the same record.
    fn clone(&self) -> (r: Self)
        ensures
            r@ == self@,
    {
        OutputInfoData {
            name: match &self.name {
                Some(s) => Some(s.clone()),
                None => None,
            },
            description: match &self.description {
                Some(s) => Some(s.clone()),
                None => None,
            },
            loc_x: self.loc_x,
            loc_y: self.loc_y,
            size_w: self.size_w,
            size_h: self.size_h,
            global_id: self.global_id,
        }
    }
}

/// Reference to one output: its wire id, and the collaborator's report
/// on it, when one was available.
#[derive(Debug)]
pub struct OutputRef {
    pub protocol_id: u32,
    pub info: Option<OutputInfoData>,
}

impl Clone for OutputRef {
    /// A copy that reads back the same reference.
    fn clone(&self) -> (r: Self)
        ensures
            r@ == self@,
    {
        OutputRef {
            protocol_id: self.protocol_id,
            info: match &self.info {
                Some(i) => Some(i.clone()),
                None => None,
            },
        }
    }
}

/// Ghost image of [`OutputRef`].
#[verifier::ext_equal]
pub ghost struct OutputModel {
    pub protocol_id: u32,
    pub info: Option<OutputInfoModel>,
}

impl View for OutputRef {
    type V = OutputModel;

    open spec fn view(&self) -> OutputModel {
        OutputModel {
            protocol_id: self.protocol_id,
            info: match self.info {
                Some(i) => Some(i@),
                None => None,
            },
        }
    }
}

} // verus!
