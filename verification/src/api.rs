//! The request and response shapes of the analysis endpoint. The HTTP
//! layer, outside this crate, carries copies of these with its own derives
//! and converts at the boundary.

use vstd::prelude::*;
use vstd::string::*;

use crate::analyzer::{ColumnInfo, SheetAnalysis};
use crate::loader::QueryResult;

verus! {

/// One uploaded file: its declared type and where to fetch it.
pub struct FileInfo {
    pub file_type: String,
    pub signed_url: String,
}

/// One analysis request: the caller, the conversation, and the files.
pub struct AnalyzeRequest {
    pub user_email: String,
    pub chat_id: String,
    pub messages: Vec<String>,
    pub files: Vec<FileInfo>,
}

/// One column's summary as serialized to the analysis consumer.
pub struct ColumnAnalysis {
    pub name: String,
    pub data_type: String,
    pub sample_values: Vec<String>,
    pub null_count: usize,
    pub unique_count: usize,
    pub min_value: Option<String>,
    pub max_value: Option<String>,
    pub has_duplicates: bool,
}

/// The analysis report as serialized to the consumer.
pub struct AnalyzeResponse {
    pub sheet_names: Vec<String>,
    pub row_count: usize,
    pub column_count: usize,
    pub sample_data: Vec<Vec<String>>,
    pub column_analysis: Vec<ColumnAnalysis>,
    pub date_columns: Vec<String>,
    pub numeric_columns: Vec<String>,
    pub text_columns: Vec<String>,
}

/// The full reply of the analysis endpoint.
pub struct FullAnalysisResponse {
    pub analysis: AnalyzeResponse,
    pub tool_result: QueryResult,
    pub new_file_url: Option<String>,
}

/// Field-for-field equality between a serialized column summary and the
/// analyzer's summary.
pub open spec fn spec_column_analysis_matches(c: ColumnAnalysis, info: ColumnInfo) -> bool {
    &&& c.name@ == info.name@
    &&& c.data_type@ == info.data_type@
    &&& c.sample_values@.len() == info.sample_values@.len()
    &&& forall|i: int|
        0 <= i < c.sample_values@.len() ==> #[trigger] c.sample_values@[i]@
            == info.sample_values@[i]@
    &&& c.null_count == info.null_count
    &&& c.unique_count == info.unique_count
    &&& c.has_duplicates == info.has_duplicates
}

/// Reshapes an analysis report into the serialized response, moving every
/// field over unchanged.
pub fn to_analyze_response(analysis: SheetAnalysis) -> (r: AnalyzeResponse)
    ensures
        r.sheet_names@ == analysis.sheet_names@,
        r.row_count == analysis.row_count,
        r.column_count == analysis.column_count,
        r.sample_data@ == analysis.sample_data@,
        r.column_analysis@.len() == analysis.column_info@.len(),
        forall|i: int|
            0 <= i < r.column_analysis@.len() ==> spec_column_analysis_matches(
                #[trigger] r.column_analysis@[i],
                analysis.column_info@[i],
            ),
        r.date_columns@ == analysis.date_columns@,
        r.numeric_columns@ == analysis.numeric_columns@,
        r.text_columns@ == analysis.text_columns@,
{
    let mut column_analysis: Vec<ColumnAnalysis> = Vec::new();
    let mut infos = analysis.column_info;
    let ghost info_views = infos@;
    let mut i: usize = 0;
    while i < infos.len()
        invariant
            i <= infos@.len(),
            infos@ == info_views,
            column_analysis@.len() == i,
            forall|j: int|
                0 <= j < i ==> spec_column_analysis_matches(
                    #[trigger] column_analysis@[j],
                    info_views[j],
                ),
        decreases infos@.len() - i,
    {
        let info = &infos[i];
        let mut sample_values: Vec<String> = Vec::new();
        let mut k: usize = 0;
        while k < info.sample_values.len()
            invariant
                k <= info.sample_values@.len(),
                sample_values@.len() == k,
                forall|p: int|
                    0 <= p < k ==> #[trigger] sample_values@[p]@ == info.sample_values@[p]@,
            decreases info.sample_values@.len() - k,
        {
            sample_values.push(info.sample_values[k].clone());
            k = k + 1;
        }
        let min_value = match &info.min_value {
            Option::Some(s) => Option::Some(s.clone()),
            Option::None => Option::None,
        };
        let max_value = match &info.max_value {
            Option::Some(s) => Option::Some(s.clone()),
            Option::None => Option::None,
        };
        column_analysis.push(
            ColumnAnalysis {
                name: info.name.clone(),
                data_type: info.data_type.clone(),
                sample_values,
                null_count: info.null_count,
                unique_count: info.unique_count,
                min_value,
                max_value,
                has_duplicates: info.has_duplicates,
            },
        );
        i = i + 1;
    }
    AnalyzeResponse {
        sheet_names: analysis.sheet_names,
        row_count: analysis.row_count,
        column_count: analysis.column_count,
        sample_data: analysis.sample_data,
        column_analysis,
        date_columns: analysis.date_columns,
        numeric_columns: analysis.numeric_columns,
        text_columns: analysis.text_columns,
    }
}

} // verus!
