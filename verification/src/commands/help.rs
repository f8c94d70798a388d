//! The help texts of the bot's commands.
use vstd::prelude::*;

verus! {

/// The command group of the help commands.
pub struct Help;

impl Help {
    pub fn new() -> (r: Self)
        ensures
            r == Help,
    {
        Help
    }
}

/// The overview of every command, shown by `^help`.
pub open spec fn help_text_spec() -> Seq<char> {
    "**🤖 Meri Bot - Command Help**\n\n**📝 Basic Commands:**\n• `^ping` - Test bot connectivity\n• `^echo <message>` - Echo back your message\n• `^help` - Show this help message\n\n**🧠 AI & Language Model Commands:**\n• `^lm <prompt>` - AI chat with personal context\n• `<@Bot> <prompt>` - AI chat with global shared context\n• `^lm --seed <number> <prompt>` - Reproducible AI responses\n• `^lm -v <prompt>` - Vision analysis (attach image)\n• `^lm -s <query>` - AI-enhanced web search\n• `^lm --test` - Test API connectivity\n• `^lm --models` - List available models in LM Studio\n• `^lm --load-model` - Validate model configuration\n• `^lm --clear` - Clear your personal chat context\n• `^lm --clear-global` - Clear shared global context\n• `^clearcontext` - Clear your personal LM chat context\n• `^clearreasoncontext` - Clear your personal reasoning context\n\n**🔍 Analysis Commands:**\n• `^reason <prompt>` - Advanced reasoning and analysis\n• `^sum <text>` - Text summarization\n• `^sum -f <file>` - Summarize uploaded document\n• `^vis <prompt>` - Visual analysis (attach image)\n\n**💡 Usage Examples:**\n• `^lm What is the weather like?` - Personal AI chat\n• `<@Bot> Tell me a joke` - Shared AI chat\n• `^lm --seed 42 What is the meaning of life?` - Reproducible AI response\n• `^lm -v Describe this image` - Vision analysis\n• `^reason Analyze this problem: 2+2=?` - Reasoning\n• `^sum Summarize this text: [your text]` - Summarization\n\n**🔗 Context Management:**\n• Personal context (`^lm`) - Private conversations per user\n• Global context (`<@Bot>`) - Shared conversations across all users\n• Both contexts persist across bot restarts\n\n**📋 Special Features:**\n• Reply to messages for context-aware responses\n• Attach files for document analysis\n• Attach images for vision analysis\n• Streaming responses for real-time interaction\n\n**❓ Need More Help?**\nUse `^lmhelp` for AI commands or `^reasonhelp` for analysis commands."@
}

/// The overview of every command, shown by `^help`.
pub fn help_text() -> (m: String)
    ensures
        m@ == help_text_spec(),
{
    String::from_str("**🤖 Meri Bot - Command Help**\n\n**📝 Basic Commands:**\n• `^ping` - Test bot connectivity\n• `^echo <message>` - Echo back your message\n• `^help` - Show this help message\n\n**🧠 AI & Language Model Commands:**\n• `^lm <prompt>` - AI chat with personal context\n• `<@Bot> <prompt>` - AI chat with global shared context\n• `^lm --seed <number> <prompt>` - Reproducible AI responses\n• `^lm -v <prompt>` - Vision analysis (attach image)\n• `^lm -s <query>` - AI-enhanced web search\n• `^lm --test` - Test API connectivity\n• `^lm --models` - List available models in LM Studio\n• `^lm --load-model` - Validate model configuration\n• `^lm --clear` - Clear your personal chat context\n• `^lm --clear-global` - Clear shared global context\n• `^clearcontext` - Clear your personal LM chat context\n• `^clearreasoncontext` - Clear your personal reasoning context\n\n**🔍 Analysis Commands:**\n• `^reason <prompt>` - Advanced reasoning and analysis\n• `^sum <text>` - Text summarization\n• `^sum -f <file>` - Summarize uploaded document\n• `^vis <prompt>` - Visual analysis (attach image)\n\n**💡 Usage Examples:**\n• `^lm What is the weather like?` - Personal AI chat\n• `<@Bot> Tell me a joke` - Shared AI chat\n• `^lm --seed 42 What is the meaning of life?` - Reproducible AI response\n• `^lm -v Describe this image` - Vision analysis\n• `^reason Analyze this problem: 2+2=?` - Reasoning\n• `^sum Summarize this text: [your text]` - Summarization\n\n**🔗 Context Management:**\n• Personal context (`^lm`) - Private conversations per user\n• Global context (`<@Bot>`) - Shared conversations across all users\n• Both contexts persist across bot restarts\n\n**📋 Special Features:**\n• Reply to messages for context-aware responses\n• Attach files for document analysis\n• Attach images for vision analysis\n• Streaming responses for real-time interaction\n\n**❓ Need More Help?**\nUse `^lmhelp` for AI commands or `^reasonhelp` for analysis commands.")
}

/// The detailed help of the language-model commands, shown by `^lmhelp`.
pub open spec fn lm_help_text_spec() -> Seq<char> {
    "**🧠 AI & Language Model Commands**\n\n**📝 Basic AI Chat:**\n• `^lm <prompt>` - Start a personal AI conversation\n• `<@Bot> <prompt>` - Start a shared AI conversation (global context)\n\n**🎲 Reproducible Responses:**\n• `^lm --seed <number> <prompt>` - Get deterministic AI responses\n• Perfect for testing, debugging, and reproducible experiments\n• Same input + same seed = same output every time\n\n**🖼️ Vision Analysis:**\n• `^lm -v <prompt>` - Analyze attached images\n• `<@Bot> -v <prompt>` - Analyze images with global context\n• Supports: JPG, PNG, GIF, WebP formats\n\n**🔍 AI-Enhanced Search:**\n• `^lm -s <query>` - Search the web with AI refinement\n• `<@Bot> -s <query>` - Search with global context\n• Provides summarized, relevant results\n\n**📄 Document Analysis (RAG):**\n• `^lm <prompt>` + attach file - Analyze documents\n• Supported formats: PDF, TXT, DOC, DOCX, RTF\n• Extracts text and provides AI analysis\n\n**⚙️ Utility Commands:**\n• `^lm --test` - Test API connectivity and configuration\n• `^lm --models` - List available models in LM Studio\n• `^lm --load-model` - Validate model configuration\n• `^lm --clear` - Clear your personal conversation history\n• `^lm --clear-global` - Clear shared conversation history\n• `^clearcontext` - Clear your personal LM chat context\n\n**💡 Advanced Features:**\n• **Reply Context**: Reply to any message for context-aware responses\n• **Streaming**: Real-time response generation\n• **Context Persistence**: Conversations saved across bot restarts\n\n**🔄 Context Types:**\n• **Personal Context** (`^lm`): Private per-user conversations\n• **Global Context** (`<@Bot>`): Shared across all users\n• **Independent**: Personal and global contexts don't interfere\n\n**📋 Example Usage:**\n```\n^lm Hello! How are you today?\n<@Bot> What were we just talking about?\n^lm --seed 42 What is the meaning of life?\n^lm -v Describe this image in detail\n^lm -s latest AI developments\n^lm --clear\n```"@
}

/// The detailed help of the language-model commands, shown by `^lmhelp`.
pub fn lm_help_text() -> (m: String)
    ensures
        m@ == lm_help_text_spec(),
{
    String::from_str("**🧠 AI & Language Model Commands**\n\n**📝 Basic AI Chat:**\n• `^lm <prompt>` - Start a personal AI conversation\n• `<@Bot> <prompt>` - Start a shared AI conversation (global context)\n\n**🎲 Reproducible Responses:**\n• `^lm --seed <number> <prompt>` - Get deterministic AI responses\n• Perfect for testing, debugging, and reproducible experiments\n• Same input + same seed = same output every time\n\n**🖼️ Vision Analysis:**\n• `^lm -v <prompt>` - Analyze attached images\n• `<@Bot> -v <prompt>` - Analyze images with global context\n• Supports: JPG, PNG, GIF, WebP formats\n\n**🔍 AI-Enhanced Search:**\n• `^lm -s <query>` - Search the web with AI refinement\n• `<@Bot> -s <query>` - Search with global context\n• Provides summarized, relevant results\n\n**📄 Document Analysis (RAG):**\n• `^lm <prompt>` + attach file - Analyze documents\n• Supported formats: PDF, TXT, DOC, DOCX, RTF\n• Extracts text and provides AI analysis\n\n**⚙️ Utility Commands:**\n• `^lm --test` - Test API connectivity and configuration\n• `^lm --models` - List available models in LM Studio\n• `^lm --load-model` - Validate model configuration\n• `^lm --clear` - Clear your personal conversation history\n• `^lm --clear-global` - Clear shared conversation history\n• `^clearcontext` - Clear your personal LM chat context\n\n**💡 Advanced Features:**\n• **Reply Context**: Reply to any message for context-aware responses\n• **Streaming**: Real-time response generation\n• **Context Persistence**: Conversations saved across bot restarts\n\n**🔄 Context Types:**\n• **Personal Context** (`^lm`): Private per-user conversations\n• **Global Context** (`<@Bot>`): Shared across all users\n• **Independent**: Personal and global contexts don't interfere\n\n**📋 Example Usage:**\n```\n^lm Hello! How are you today?\n<@Bot> What were we just talking about?\n^lm --seed 42 What is the meaning of life?\n^lm -v Describe this image in detail\n^lm -s latest AI developments\n^lm --clear\n```")
}

/// The detailed help of the reasoning and analysis commands, shown by `^reasonhelp`.
pub open spec fn reason_help_text_spec() -> Seq<char> {
    "**🔍 Reasoning & Analysis Commands**\n\n**🧠 Advanced Reasoning:**\n• `^reason <prompt>` - Deep reasoning and analysis\n• Uses specialized reasoning models for complex problem-solving\n• Provides step-by-step thinking processes\n• `^clearreasoncontext` - Clear your personal reasoning context\n\n**📊 Text Summarization:**\n• `^sum <text>` - Summarize provided text\n• `^sum -f <file>` - Summarize uploaded document\n• Supports multiple document formats\n\n**🖼️ Visual Analysis:**\n• `^vis <prompt>` - Analyze images and visual content\n• Supports: JPG, PNG, GIF, WebP formats\n• Provides detailed visual descriptions and analysis\n\n**💡 Use Cases:**\n• **Problem Solving**: Complex mathematical or logical problems\n• **Text Analysis**: Summarize long documents or articles\n• **Visual Understanding**: Analyze images, diagrams, or screenshots\n• **Research**: Deep analysis of topics or concepts\n\n**📋 Example Usage:**\n```\n^reason Solve this math problem: 15x + 7 = 22\n^sum Summarize this article: [paste article text]\n^sum -f [attach document]\n^vis Describe what you see in this image\n^clearreasoncontext\n```"@
}

/// The detailed help of the reasoning and analysis commands, shown by `^reasonhelp`.
pub fn reason_help_text() -> (m: String)
    ensures
        m@ == reason_help_text_spec(),
{
    String::from_str("**🔍 Reasoning & Analysis Commands**\n\n**🧠 Advanced Reasoning:**\n• `^reason <prompt>` - Deep reasoning and analysis\n• Uses specialized reasoning models for complex problem-solving\n• Provides step-by-step thinking processes\n• `^clearreasoncontext` - Clear your personal reasoning context\n\n**📊 Text Summarization:**\n• `^sum <text>` - Summarize provided text\n• `^sum -f <file>` - Summarize uploaded document\n• Supports multiple document formats\n\n**🖼️ Visual Analysis:**\n• `^vis <prompt>` - Analyze images and visual content\n• Supports: JPG, PNG, GIF, WebP formats\n• Provides detailed visual descriptions and analysis\n\n**💡 Use Cases:**\n• **Problem Solving**: Complex mathematical or logical problems\n• **Text Analysis**: Summarize long documents or articles\n• **Visual Understanding**: Analyze images, diagrams, or screenshots\n• **Research**: Deep analysis of topics or concepts\n\n**📋 Example Usage:**\n```\n^reason Solve this math problem: 15x + 7 = 22\n^sum Summarize this article: [paste article text]\n^sum -f [attach document]\n^vis Describe what you see in this image\n^clearreasoncontext\n```")
}

} // verus!
