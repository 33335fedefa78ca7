//! Tool dispatch: splitting a reassembled `<name>,<arguments>` command,
//! recognising the one registered tool, the schema offered to the model, and
//! the access-token refresh rule of the stock plugin.

use vstd::prelude::*;

use crate::text::{str_eq, str_suffix_from};

verus! {

/// A reassembled tool invocation: the function name and its argument JSON.
pub struct ToolCommand {
    pub name: String,
    pub arguments: String,
}

/// Why a tool command cannot be dispatched.
#[derive(Clone, Copy, Debug, PartialEq, Eq, Structural)]
pub enum ToolError {
    InvalidFormat,
    UnknownTool,
}

/// Split a command at its first comma into name and arguments. A command
/// without a comma is rejected as malformed.
pub fn parse_tool_command(cmd: &str) -> (r: Result<ToolCommand, ToolError>)
    ensures
        (r is Ok) <==> exists|i: int| 0 <= i < cmd@.len() && cmd@[i] == ',',
        r matches Ok(tc) ==> {
            &&& tc.name@ + seq![','] + tc.arguments@ == cmd@
            &&& forall|j: int| 0 <= j < tc.name@.len() ==> tc.name@[j] != ','
        },
        r matches Err(e) ==> e == ToolError::InvalidFormat,
{
    let n = cmd.unicode_len();
    let mut i: usize = 0;
    while i < n
        invariant
            n == cmd@.len(),
            0 <= i <= n,
            forall|j: int| 0 <= j < i ==> cmd@[j] != ',',
        decreases n - i,
    {
        if cmd.get_char(i) == ',' {
            let name = cmd.substring_char(0, i).to_owned();
            let arguments = str_suffix_from(cmd, i + 1);
            proof {
                assert(name@ + seq![','] + arguments@ =~= cmd@);
            }
            return Ok(ToolCommand { name, arguments });
        }
        i = i + 1;
    }
    Err(ToolError::InvalidFormat)
}

/// The one registered tool.
pub open spec fn stock_tool_name() -> Seq<char> {
    "get_stock_selection"@
}

/// Is this the name of a registered tool?
pub fn is_known_tool(name: &str) -> (r: bool)
    ensures
        r == (name@ == stock_tool_name()),
{
    str_eq(name, "get_stock_selection")
}

/// A property of a tool's parameter object.
pub struct ToolProperty {
    pub property_type: String,
    pub description: Option<String>,
    pub enum_values: Option<Vec<String>>,
}

/// The parameter object of a tool.
pub struct ToolParameters {
    pub parameters_type: String,
    pub properties: Vec<(String, ToolProperty)>,
    pub required: Vec<String>,
}

/// The function a tool exposes.
pub struct ToolFunction {
    pub name: String,
    pub description: String,
    pub parameters: ToolParameters,
}

/// One tool offered to the model.
pub struct Tool {
    pub tool_type: String,
    pub function: ToolFunction,
}

/// The stock-selection tool: one string parameter, the date.
pub fn stock_plugin() -> (r: Tool)
    ensures
        r.tool_type@ == "function"@,
        r.function.name@ == stock_tool_name(),
        r.function.parameters.properties@.len() == 1,
        r.function.parameters.properties@[0].0@ == "date"@,
        r.function.parameters.required@.len() == 1,
        r.function.parameters.required@[0]@ == "date"@,
{
    let mut properties: Vec<(String, ToolProperty)> = Vec::new();
    properties.push(
        (
            String::from_str("date"),
            ToolProperty {
                property_type: String::from_str("string"),
                description: Some(String::from_str("The date format, e.g. 20231101")),
                enum_values: None,
            },
        ),
    );
    let mut required: Vec<String> = Vec::new();
    required.push(String::from_str("date"));
    Tool {
        tool_type: String::from_str("function"),
        function: ToolFunction {
            name: String::from_str("get_stock_selection"),
            description: String::from_str("Get the stock selection in a given date"),
            parameters: ToolParameters {
                parameters_type: String::from_str("object"),
                properties,
                required,
            },
        },
    }
}

/// Every tool the gateway registers.
pub fn payload() -> (r: Vec<Tool>)
    ensures
        r@.len() == 1,
        r@[0].function.name@ == stock_tool_name(),
{
    let mut tools: Vec<Tool> = Vec::new();
    tools.push(stock_plugin());
    tools
}

/// The analysis instructions prepended to every stock-selection result.
pub open spec fn stock_report_prompt() -> Seq<char> {
    "[Play as professional investor role][DO NOT respond with code advice] with json stock data provided:\nDO NOT share the analysis stratey, just sharing the result.\n1. Top 3 categories on the day (count by category in json)\n2. Top 5 stocks that most concentrate (sum concentration1,concentration5,concentration10,concentration20,concentration60,foreign,foreign10,trust,trust10 as rank, sort by rank & quoteChange desc).\n3. List the candlestick chart link with pure text, replace {stockID} with the top 5 selection with exact this url:\nhttps://stock.wearn.com/finance_chart.asp?stockid={stockID}&timekind=0&timeblock=120&sma1=8&sma2=21&sma3=55&volume=1\n"@
}

/// Frame a raw selection response as the tool result handed back to the
/// model: the analysis instructions, a newline, then the data.
pub fn selection_report(selection: &str) -> (r: String)
    ensures
        r@ == stock_report_prompt() + "\n"@ + selection@,
{
    let prompt = "[Play as professional investor role][DO NOT respond with code advice] with json stock data provided:\nDO NOT share the analysis stratey, just sharing the result.\n1. Top 3 categories on the day (count by category in json)\n2. Top 5 stocks that most concentrate (sum concentration1,concentration5,concentration10,concentration20,concentration60,foreign,foreign10,trust,trust10 as rank, sort by rank & quoteChange desc).\n3. List the candlestick chart link with pure text, replace {stockID} with the top 5 selection with exact this url:\nhttps://stock.wearn.com/finance_chart.asp?stockid={stockID}&timekind=0&timeblock=120&sma1=8&sma2=21&sma3=55&volume=1\n";
    let r = String::from_str(prompt).concat("\n").concat(selection);
    proof {
        assert((stock_report_prompt() + "\n"@) + selection@ =~= stock_report_prompt() + "\n"@
            + selection@);
    }
    r
}

/// Must the stock plugin authenticate before its next call? Yes when it has
/// no token yet or the token has outlived its expiry instant.
pub fn token_needs_refresh(token_is_empty: bool, now: i64, expires: i64) -> (r: bool)
    ensures
        r == (token_is_empty || now > expires),
{
    token_is_empty || now > expires
}

} // verus!
