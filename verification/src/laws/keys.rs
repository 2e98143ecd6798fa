//! The keys of wire documents.

use vstd::prelude::*;

verus! {

/// The keys of wire documents are different texts: no two of one length have
/// the same characters.
pub proof fn lemma_keys()
    ensures
        "id"@.len() == 2,
        "url"@.len() == 3,
        "url"@[1] == 'r',
        "usd"@.len() == 3,
        "usd"@[1] == 's',
        "args"@.len() == 4,
        "args"@[1] == 'r',
        "args"@[2] == 'g',
        "cost"@.len() == 4,
        "cost"@[1] == 'o',
        "cost"@[2] == 's',
        "data"@.len() == 4,
        "data"@[1] == 'a',
        "data"@[2] == 't',
        "mode"@.len() == 4,
        "mode"@[1] == 'o',
        "mode"@[2] == 'd',
        "name"@.len() == 4,
        "name"@[1] == 'a',
        "name"@[2] == 'm',
        "role"@.len() == 4,
        "role"@[1] == 'o',
        "role"@[2] == 'l',
        "stop"@.len() == 4,
        "stop"@[1] == 't',
        "stop"@[2] == 'o',
        "text"@.len() == 4,
        "text"@[1] == 'e',
        "text"@[2] == 'x',
        "topP"@.len() == 4,
        "topP"@[1] == 'o',
        "topP"@[2] == 'p',
        "type"@.len() == 4,
        "type"@[1] == 'y',
        "type"@[2] == 'p',
        "error"@.len() == 5,
        "error"@[0] == 'e',
        "error"@[3] == 'o',
        "index"@.len() == 5,
        "index"@[0] == 'i',
        "index"@[3] == 'e',
        "input"@.len() == 5,
        "input"@[0] == 'i',
        "input"@[3] == 'u',
        "model"@.len() == 5,
        "model"@[0] == 'm',
        "model"@[3] == 'e',
        "parts"@.len() == 5,
        "parts"@[0] == 'p',
        "parts"@[3] == 't',
        "store"@.len() == 5,
        "store"@[0] == 's',
        "store"@[3] == 'r',
        "tools"@.len() == 5,
        "tools"@[0] == 't',
        "tools"@[3] == 'l',
        "top_p"@.len() == 5,
        "top_p"@[0] == 't',
        "top_p"@[3] == '_',
        "usage"@.len() == 5,
        "usage"@[0] == 'u',
        "usage"@[3] == 'g',
        "custom"@.len() == 6,
        "custom"@[1] == 'u',
        "custom"@[3] == 't',
        "detail"@.len() == 6,
        "detail"@[1] == 'e',
        "detail"@[3] == 'a',
        "effort"@.len() == 6,
        "effort"@[1] == 'f',
        "effort"@[3] == 'o',
        "format"@.len() == 6,
        "format"@[1] == 'o',
        "format"@[3] == 'm',
        "object"@.len() == 6,
        "object"@[1] == 'b',
        "object"@[3] == 'e',
        "output"@.len() == 6,
        "output"@[1] == 'u',
        "output"@[3] == 'p',
        "reason"@.len() == 6,
        "reason"@[1] == 'e',
        "reason"@[3] == 's',
        "schema"@.len() == 6,
        "schema"@[1] == 'c',
        "schema"@[3] == 'e',
        "status"@.len() == 6,
        "status"@[1] == 't',
        "status"@[3] == 't',
        "stream"@.len() == 6,
        "stream"@[1] == 't',
        "stream"@[3] == 'e',
        "strict"@.len() == 6,
        "strict"@[1] == 't',
        "strict"@[3] == 'i',
        "call_id"@.len() == 7,
        "call_id"@[0] == 'c',
        "call_id"@[1] == 'a',
        "choices"@.len() == 7,
        "choices"@[0] == 'c',
        "choices"@[1] == 'h',
        "content"@.len() == 7,
        "content"@[0] == 'c',
        "content"@[1] == 'o',
        "fileUri"@.len() == 7,
        "fileUri"@[0] == 'f',
        "fileUri"@[1] == 'i',
        "include"@.len() == 7,
        "include"@[0] == 'i',
        "include"@[1] == 'n',
        "item_id"@.len() == 7,
        "item_id"@[0] == 'i',
        "item_id"@[1] == 't',
        "message"@.len() == 7,
        "message"@[0] == 'm',
        "message"@[1] == 'e',
        "refusal"@.len() == 7,
        "refusal"@[0] == 'r',
        "refusal"@[1] == 'e',
        "summary"@.len() == 7,
        "summary"@[0] == 's',
        "summary"@[1] == 'u',
        "thought"@.len() == 7,
        "thought"@[0] == 't',
        "thought"@[1] == 'h',
        "category"@.len() == 8,
        "category"@[4] == 'g',
        "contents"@.len() == 8,
        "contents"@[4] == 'e',
        "fileData"@.len() == 8,
        "fileData"@[4] == 'D',
        "file_url"@.len() == 8,
        "file_url"@[4] == '_',
        "filename"@.len() == 8,
        "filename"@[4] == 'n',
        "function"@.len() == 8,
        "function"@[4] == 't',
        "messages"@.len() == 8,
        "messages"@[4] == 'a',
        "metadata"@.len() == 8,
        "metadata"@[4] == 'd',
        "mimeType"@.len() == 8,
        "mimeType"@[4] == 'T',
        "response"@.len() == 8,
        "response"@[4] == 'o',
        "arguments"@.len() == 9,
        "arguments"@[0] == 'a',
        "file_data"@.len() == 9,
        "file_data"@[0] == 'f',
        "image_url"@.len() == 9,
        "image_url"@[0] == 'i',
        "reasoning"@.len() == 9,
        "reasoning"@[0] == 'r',
        "threshold"@.len() == 9,
        "threshold"@[0] == 't',
        "candidates"@.len() == 10,
        "candidates"@[0] == 'c',
        "candidates"@[8] == 'e',
        "inlineData"@.len() == 10,
        "inlineData"@[0] == 'i',
        "inlineData"@[8] == 't',
        "input_file"@.len() == 10,
        "input_file"@[0] == 'i',
        "input_file"@[8] == 'l',
        "input_text"@.len() == 10,
        "input_text"@[0] == 'i',
        "input_text"@[8] == 'x',
        "max_tokens"@.len() == 10,
        "max_tokens"@[0] == 'm',
        "max_tokens"@[8] == 'n',
        "parameters"@.len() == 10,
        "parameters"@[0] == 'p',
        "parameters"@[8] == 'r',
        "responseId"@.len() == 10,
        "responseId"@[0] == 'r',
        "responseId"@[8] == 'I',
        "toolConfig"@.len() == 10,
        "toolConfig"@[0] == 't',
        "toolConfig"@[8] == 'i',
        "tool_calls"@.len() == 10,
        "tool_calls"@[0] == 't',
        "tool_calls"@[8] == 'l',
        "truncation"@.len() == 10,
        "truncation"@[0] == 't',
        "truncation"@[8] == 'o',
        "blockReason"@.len() == 11,
        "blockReason"@[5] == 'R',
        "description"@.len() == 11,
        "description"@[5] == 'i',
        "input_image"@.len() == 11,
        "input_image"@[5] == '_',
        "json_schema"@.len() == 11,
        "json_schema"@[5] == 's',
        "output_text"@.len() == 11,
        "output_text"@[5] == 't',
        "temperature"@.len() == 11,
        "temperature"@[5] == 'r',
        "tool_choice"@.len() == 11,
        "tool_choice"@[5] == 'c',
        "totalTokens"@.len() == 11,
        "totalTokens"@[5] == 'T',
        "conversation"@.len() == 12,
        "conversation"@[6] == 's',
        "finishReason"@.len() == 12,
        "finishReason"@[6] == 'R',
        "functionCall"@.len() == 12,
        "functionCall"@[6] == 'o',
        "input_tokens"@.len() == 12,
        "input_tokens"@[6] == 't',
        "instructions"@.len() == 12,
        "instructions"@[6] == 'c',
        "service_tier"@.len() == 12,
        "service_tier"@[6] == 'e',
        "summary_text"@.len() == 12,
        "summary_text"@[6] == 'y',
        "tool_call_id"@.len() == 12,
        "tool_call_id"@[6] == 'a',
        "cache_control"@.len() == 13,
        "cache_control"@[0] == 'c',
        "cache_control"@[5] == '_',
        "cached_tokens"@.len() == 13,
        "cached_tokens"@[0] == 'c',
        "cached_tokens"@[5] == 'd',
        "finish_reason"@.len() == 13,
        "finish_reason"@[0] == 'f',
        "finish_reason"@[5] == 'h',
        "function_call"@.len() == 13,
        "function_call"@[0] == 'f',
        "function_call"@[5] == 'i',
        "include_usage"@.len() == 13,
        "include_usage"@[0] == 'i',
        "include_usage"@[5] == 'd',
        "output_tokens"@.len() == 13,
        "output_tokens"@[0] == 'o',
        "output_tokens"@[5] == 't',
        "prompt_tokens"@.len() == 13,
        "prompt_tokens"@[0] == 'p',
        "prompt_tokens"@[5] == 't',
        "stopSequences"@.len() == 13,
        "stopSequences"@[0] == 's',
        "stopSequences"@[5] == 'e',
        "thinkingLevel"@.len() == 13,
        "thinkingLevel"@[0] == 't',
        "thinkingLevel"@[5] == 'i',
        "usageMetadata"@.len() == 13,
        "usageMetadata"@[0] == 'u',
        "usageMetadata"@[5] == 'M',
        "content_filter"@.len() == 14,
        "content_filter"@[1] == 'o',
        "promptFeedback"@.len() == 14,
        "promptFeedback"@[1] == 'r',
        "reasoning_text"@.len() == 14,
        "reasoning_text"@[1] == 'e',
        "safetySettings"@.len() == 14,
        "safetySettings"@[1] == 'a',
        "stream_options"@.len() == 14,
        "stream_options"@[1] == 't',
        "thinkingConfig"@.len() == 14,
        "thinkingConfig"@[1] == 'h',
        "maxOutputTokens"@.len() == 15,
        "maxOutputTokens"@[0] == 'm',
        "response_format"@.len() == 15,
        "response_format"@[0] == 'r',
        "safety_settings"@.len() == 15,
        "safety_settings"@[0] == 's',
        "custom_tool_call"@.len() == 16,
        "custom_tool_call"@[0] == 'c',
        "custom_tool_call"@[10] == 'l',
        "functionResponse"@.len() == 16,
        "functionResponse"@[0] == 'f',
        "functionResponse"@[10] == 's',
        "generationConfig"@.len() == 16,
        "generationConfig"@[0] == 'g',
        "generationConfig"@[10] == 'C',
        "promptTokenCount"@.len() == 16,
        "promptTokenCount"@[0] == 'p',
        "promptTokenCount"@[10] == 'n',
        "prompt_cache_key"@.len() == 16,
        "prompt_cache_key"@[0] == 'p',
        "prompt_cache_key"@[10] == 'h',
        "reasoning_effort"@.len() == 16,
        "reasoning_effort"@[0] == 'r',
        "reasoning_effort"@[10] == 'e',
        "reasoning_tokens"@.len() == 16,
        "reasoning_tokens"@[0] == 'r',
        "reasoning_tokens"@[10] == 't',
        "responseMimeType"@.len() == 16,
        "responseMimeType"@[0] == 'r',
        "responseMimeType"@[10] == 'm',
        "thoughtSignature"@.len() == 16,
        "thoughtSignature"@[0] == 't',
        "thoughtSignature"@[10] == 'n',
        "completion_tokens"@.len() == 17,
        "completion_tokens"@[0] == 'c',
        "max_output_tokens"@.len() == 17,
        "max_output_tokens"@[0] == 'm',
        "reasoning_content"@.len() == 17,
        "reasoning_content"@[0] == 'r',
        "systemInstruction"@.len() == 17,
        "systemInstruction"@[0] == 's',
        "cache_write_tokens"@.len() == 18,
        "cache_write_tokens"@[0] == 'c',
        "incomplete_details"@.len() == 18,
        "incomplete_details"@[0] == 'i',
        "responseJsonSchema"@.len() == 18,
        "responseJsonSchema"@[0] == 'r',
        "thoughtsTokenCount"@.len() == 18,
        "thoughtsTokenCount"@[0] == 't',
        "parallel_tool_calls"@.len() == 19,
        "allowedFunctionNames"@.len() == 20,
        "allowedFunctionNames"@[12] == 'i',
        "candidatesTokenCount"@.len() == 20,
        "candidatesTokenCount"@[12] == 'k',
        "functionDeclarations"@.len() == 20,
        "functionDeclarations"@[12] == 'a',
        "function_call_output"@.len() == 20,
        "function_call_output"@[12] == 'l',
        "input_tokens_details"@.len() == 20,
        "input_tokens_details"@[12] == '_',
        "parametersJsonSchema"@.len() == 20,
        "parametersJsonSchema"@[12] == 'o',
        "previous_response_id"@.len() == 20,
        "previous_response_id"@[12] == 'p',
        "functionCallingConfig"@.len() == 21,
        "functionCallingConfig"@[0] == 'f',
        "output_tokens_details"@.len() == 21,
        "output_tokens_details"@[0] == 'o',
        "prompt_tokens_details"@.len() == 21,
        "prompt_tokens_details"@[0] == 'p',
        "generateContentRequest"@.len() == 22,
        "cachedContentTokenCount"@.len() == 23,
        "cachedContentTokenCount"@[1] == 'a',
        "custom_tool_call_output"@.len() == 23,
        "custom_tool_call_output"@[1] == 'u',
        "prompt_cache_hit_tokens"@.len() == 23,
        "prompt_cache_hit_tokens"@[1] == 'r',
        "toolUsePromptTokenCount"@.len() == 23,
        "toolUsePromptTokenCount"@[1] == 'o',
        "completion_tokens_details"@.len() == 25,
        "cache_creation_input_tokens"@.len() == 27,
{
    reveal_strlit("allowedFunctionNames");
    reveal_strlit("args");
    reveal_strlit("arguments");
    reveal_strlit("blockReason");
    reveal_strlit("cache_control");
    reveal_strlit("cache_creation_input_tokens");
    reveal_strlit("cache_write_tokens");
    reveal_strlit("cachedContentTokenCount");
    reveal_strlit("cached_tokens");
    reveal_strlit("call_id");
    reveal_strlit("candidates");
    reveal_strlit("candidatesTokenCount");
    reveal_strlit("category");
    reveal_strlit("choices");
    reveal_strlit("completion_tokens");
    reveal_strlit("completion_tokens_details");
    reveal_strlit("content");
    reveal_strlit("content_filter");
    reveal_strlit("contents");
    reveal_strlit("conversation");
    reveal_strlit("cost");
    reveal_strlit("custom");
    reveal_strlit("custom_tool_call");
    reveal_strlit("custom_tool_call_output");
    reveal_strlit("data");
    reveal_strlit("description");
    reveal_strlit("detail");
    reveal_strlit("effort");
    reveal_strlit("error");
    reveal_strlit("fileData");
    reveal_strlit("fileUri");
    reveal_strlit("file_data");
    reveal_strlit("file_url");
    reveal_strlit("filename");
    reveal_strlit("finishReason");
    reveal_strlit("finish_reason");
    reveal_strlit("format");
    reveal_strlit("function");
    reveal_strlit("functionCall");
    reveal_strlit("functionCallingConfig");
    reveal_strlit("functionDeclarations");
    reveal_strlit("functionResponse");
    reveal_strlit("function_call");
    reveal_strlit("function_call_output");
    reveal_strlit("generateContentRequest");
    reveal_strlit("generationConfig");
    reveal_strlit("id");
    reveal_strlit("image_url");
    reveal_strlit("include");
    reveal_strlit("include_usage");
    reveal_strlit("incomplete_details");
    reveal_strlit("index");
    reveal_strlit("inlineData");
    reveal_strlit("input");
    reveal_strlit("input_file");
    reveal_strlit("input_image");
    reveal_strlit("input_text");
    reveal_strlit("input_tokens");
    reveal_strlit("input_tokens_details");
    reveal_strlit("instructions");
    reveal_strlit("item_id");
    reveal_strlit("json_schema");
    reveal_strlit("maxOutputTokens");
    reveal_strlit("max_output_tokens");
    reveal_strlit("max_tokens");
    reveal_strlit("message");
    reveal_strlit("messages");
    reveal_strlit("metadata");
    reveal_strlit("mimeType");
    reveal_strlit("mode");
    reveal_strlit("model");
    reveal_strlit("name");
    reveal_strlit("object");
    reveal_strlit("output");
    reveal_strlit("output_text");
    reveal_strlit("output_tokens");
    reveal_strlit("output_tokens_details");
    reveal_strlit("parallel_tool_calls");
    reveal_strlit("parameters");
    reveal_strlit("parametersJsonSchema");
    reveal_strlit("parts");
    reveal_strlit("previous_response_id");
    reveal_strlit("promptFeedback");
    reveal_strlit("promptTokenCount");
    reveal_strlit("prompt_cache_hit_tokens");
    reveal_strlit("prompt_cache_key");
    reveal_strlit("prompt_tokens");
    reveal_strlit("prompt_tokens_details");
    reveal_strlit("reason");
    reveal_strlit("reasoning");
    reveal_strlit("reasoning_content");
    reveal_strlit("reasoning_effort");
    reveal_strlit("reasoning_text");
    reveal_strlit("reasoning_tokens");
    reveal_strlit("refusal");
    reveal_strlit("response");
    reveal_strlit("responseId");
    reveal_strlit("responseJsonSchema");
    reveal_strlit("responseMimeType");
    reveal_strlit("response_format");
    reveal_strlit("role");
    reveal_strlit("safetySettings");
    reveal_strlit("safety_settings");
    reveal_strlit("schema");
    reveal_strlit("service_tier");
    reveal_strlit("status");
    reveal_strlit("stop");
    reveal_strlit("stopSequences");
    reveal_strlit("store");
    reveal_strlit("stream");
    reveal_strlit("stream_options");
    reveal_strlit("strict");
    reveal_strlit("summary");
    reveal_strlit("summary_text");
    reveal_strlit("systemInstruction");
    reveal_strlit("temperature");
    reveal_strlit("text");
    reveal_strlit("thinkingConfig");
    reveal_strlit("thinkingLevel");
    reveal_strlit("thought");
    reveal_strlit("thoughtSignature");
    reveal_strlit("thoughtsTokenCount");
    reveal_strlit("threshold");
    reveal_strlit("toolConfig");
    reveal_strlit("toolUsePromptTokenCount");
    reveal_strlit("tool_call_id");
    reveal_strlit("tool_calls");
    reveal_strlit("tool_choice");
    reveal_strlit("tools");
    reveal_strlit("topP");
    reveal_strlit("top_p");
    reveal_strlit("totalTokens");
    reveal_strlit("truncation");
    reveal_strlit("type");
    reveal_strlit("url");
    reveal_strlit("usage");
    reveal_strlit("usageMetadata");
    reveal_strlit("usd");
}

} // verus!
