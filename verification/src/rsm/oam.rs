//! The diagnostic command surface: operation codes, request and response
//! values, and tabular response building. The HTTP transport around these
//! values lives with the application.

use vstd::prelude::*;
use vstd::string::*;
use crate::common::errcode;

verus! {

#[derive(Clone, Copy, Debug, PartialEq, Eq, Structural)]
pub enum E_RSM_OAM_OP {
    CLI_OP_INVALID,
    CLI_OP_ADD,
    CLI_OP_DEL,
    CLI_OP_SET,
    CLI_OP_SHOW,
}

/// The operation a command-line verb names.
pub open spec fn spec_cmd_by_name(s: Seq<char>) -> E_RSM_OAM_OP {
    if s == "ADD"@ {
        E_RSM_OAM_OP::CLI_OP_ADD
    } else if s == "DEL"@ {
        E_RSM_OAM_OP::CLI_OP_DEL
    } else if s == "SET"@ {
        E_RSM_OAM_OP::CLI_OP_SET
    } else if s == "SHOW"@ {
        E_RSM_OAM_OP::CLI_OP_SHOW
    } else {
        E_RSM_OAM_OP::CLI_OP_INVALID
    }
}

/// Look an operation up by its command-line verb; unknown verbs are invalid.
pub fn get_cmd_by_name(op: &String) -> (r: E_RSM_OAM_OP)
    ensures
        r == spec_cmd_by_name(op@),
{
    if *op == "ADD".to_owned() {
        E_RSM_OAM_OP::CLI_OP_ADD
    } else if *op == "DEL".to_owned() {
        E_RSM_OAM_OP::CLI_OP_DEL
    } else if *op == "SET".to_owned() {
        E_RSM_OAM_OP::CLI_OP_SET
    } else if *op == "SHOW".to_owned() {
        E_RSM_OAM_OP::CLI_OP_SHOW
    } else {
        E_RSM_OAM_OP::CLI_OP_INVALID
    }
}

/// One name=value pair of a command or a response row.
#[derive(Clone)]
pub struct param_pair_t {
    pub Name: String,
    pub Value: String,
}

/// A diagnostic request: the operation, its subject, and its parameters.
pub struct oam_cmd_req_t {
    pub Op: E_RSM_OAM_OP,
    pub Subject: String,
    pub Params: Vec<param_pair_t>,
}

/// One response row: the header names paired with this row's values.
#[derive(Clone)]
pub struct oam_resp_row_t {
    pub row: Vec<param_pair_t>,
}

/// A diagnostic response: a result code, a description, and tabular rows
/// built against a header set once.
pub struct oam_cmd_resp_t {
    pub RetCode: errcode::RESULT,
    pub Description: String,
    pub RespTableHeader: Vec<String>,
    pub RespRows: Vec<oam_resp_row_t>,
}

impl oam_cmd_resp_t {
    /// A response with the given code and description and no rows.
    pub fn new(ret_code: errcode::RESULT, desc: &String) -> (r: Self)
        ensures
            r.RetCode == ret_code,
            r.Description@ == desc@,
            r.RespTableHeader@.len() == 0,
            r.RespRows@.len() == 0,
    {
        Self {
            RetCode: ret_code,
            Description: desc.clone(),
            RespTableHeader: Vec::new(),
            RespRows: Vec::new(),
        }
    }

    /// Set the header row that later rows are paired against.
    pub fn set_row_hdr(&mut self, hdr: Vec<String>)
        ensures
            final(self).RespTableHeader == hdr,
            final(self).RetCode == old(self).RetCode,
            final(self).Description == old(self).Description,
            final(self).RespRows == old(self).RespRows,
    {
        self.RespTableHeader = hdr;
    }

    /// Append one row of values. Refused with `INVALID_PARAM` when the row's
    /// width differs from the header's; otherwise one row is added in which
    /// value i is paired with header name i.
    pub fn add_row(&mut self, row: &Vec<String>) -> (res: errcode::RESULT)
        ensures
            final(self).RetCode == old(self).RetCode,
            final(self).Description == old(self).Description,
            final(self).RespTableHeader == old(self).RespTableHeader,
            row@.len() != old(self).RespTableHeader@.len() ==> res == errcode::ERROR_INVALID_PARAM
                && final(self).RespRows == old(self).RespRows,
            row@.len() == old(self).RespTableHeader@.len() ==> res == errcode::RESULT_SUCCESS
                && final(self).RespRows@.len() == old(self).RespRows@.len() + 1 && (forall|j: int|
                0 <= j < old(self).RespRows@.len() ==> final(self).RespRows@[j] == old(
                    self,
                ).RespRows@[j]) && final(self).RespRows@.last().row@.len() == row@.len() && (forall|
                i: int,
            |
                0 <= i < row@.len() ==> (#[trigger] final(self).RespRows@.last().row@[i]).Name@
                    == old(self).RespTableHeader@[i]@ && final(self).RespRows@.last().row@[i].Value@
                    == row@[i]@),
    {
        if row.len() != self.RespTableHeader.len() {
            return errcode::ERROR_INVALID_PARAM;
        }
        let mut data_row = oam_resp_row_t { row: Vec::new() };
        let n = row.len();
        let mut i: usize = 0;
        while i < n
            invariant
                i <= n,
                n == row@.len(),
                n == self.RespTableHeader@.len(),
                data_row.row@.len() == i,
                forall|j: int|
                    0 <= j < i ==> (#[trigger] data_row.row@[j]).Name@
                        == self.RespTableHeader@[j]@ && data_row.row@[j].Value@ == row@[j]@,
            decreases n - i,
        {
            let pair = param_pair_t {
                Name: self.RespTableHeader[i].clone(),
                Value: row[i].clone(),
            };
            data_row.row.push(pair);
            i = i + 1;
        }
        self.RespRows.push(data_row);
        errcode::RESULT_SUCCESS
    }

    /// Drop the header and every row.
    pub fn clear(&mut self)
        ensures
            final(self).RetCode == old(self).RetCode,
            final(self).Description == old(self).Description,
            final(self).RespTableHeader@.len() == 0,
            final(self).RespRows@.len() == 0,
    {
        self.RespTableHeader = Vec::new();
        self.RespRows = Vec::new();
    }
}

} // verus!
