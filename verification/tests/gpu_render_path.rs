use nextcore_gpu::command_executor::{
    CommandExecutor, GpuCommand, RecordedCommandBuffer,
    SOFTWARE_RENDER_VERTEX_STRIDE,
};
use nextcore_gpu::framebuffer::{LinearFramebuffer, PixelFormat};
use nextcore_gpu::texture::TextureManager;

fn encode_vertex(position: [f32; 4], color: [f32; 4]) -> Vec<u8> {
    let mut out = Vec::with_capacity(SOFTWARE_RENDER_VERTEX_STRIDE as usize);
    for v in position.iter().chain(color.iter()) {
        out.extend_from_slice(&v.to_le_bytes());
    }
    // tex_coord (u,v)
    out.extend_from_slice(&0.0f32.to_le_bytes());
    out.extend_from_slice(&0.0f32.to_le_bytes());
    // normal (nx,ny,nz)
    out.extend_from_slice(&0.0f32.to_le_bytes());
    out.extend_from_slice(&0.0f32.to_le_bytes());
    out.extend_from_slice(&1.0f32.to_le_bytes());
    out
}

fn red_triangle() -> Vec<u8> {
    let mut data = Vec::new();
    data.extend(encode_vertex([-1.0, -1.0, 0.0, 1.0], [1.0, 0.0, 0.0, 1.0]));
    data.extend(encode_vertex([1.0, -1.0, 0.0, 1.0], [1.0, 0.0, 0.0, 1.0]));
    data.extend(encode_vertex([0.0, 1.0, 0.0, 1.0], [1.0, 0.0, 0.0, 1.0]));
    data
}

#[test]
fn render_without_rasterizer_only_clears() {
    let mut executor = CommandExecutor::new();
    let vb = executor.create_vertex_buffer(red_triangle(), SOFTWARE_RENDER_VERTEX_STRIDE);

    let commands = RecordedCommandBuffer {
        commands: vec![
            GpuCommand::BindVertexBuffer { slot: 0, buffer_id: vb },
            GpuCommand::BeginRenderPass { clear_color: [0.0f32, 0.0, 0.0, 1.0].map(f32::to_bits), clear_depth: 1.0f32.to_bits() },
            GpuCommand::Draw { vertex_count: 3, first_vertex: 0 },
            GpuCommand::EndRenderPass,
        ],
    };

    let mut fb = LinearFramebuffer::new(16, 16, PixelFormat::Rgba8);
    let mut textures = TextureManager::default();
    executor.execute(&commands, std::slice::from_mut(&mut fb), &mut textures).unwrap();

    assert_eq!(fb.get_pixel(8, 10).unwrap(), [0, 0, 0, 255]);
    assert_eq!(executor.executed_command_count(), 1);
}


#[test]
fn draw_vertex_records_slices_the_bound_buffer() {
    let mut executor = CommandExecutor::new();
    let vb = executor.create_vertex_buffer(red_triangle(), SOFTWARE_RENDER_VERTEX_STRIDE);
    let draw = GpuCommand::Draw { vertex_count: 3, first_vertex: 0 };
    assert!(executor.draw_vertex_records(&draw).is_none());
    let begin = RecordedCommandBuffer {
        commands: vec![
            GpuCommand::BindVertexBuffer { slot: 0, buffer_id: vb },
            GpuCommand::BeginRenderPass {
                clear_color: [0.0f32, 0.0, 0.0, 1.0].map(f32::to_bits),
                clear_depth: 1.0f32.to_bits(),
            },
        ],
    };
    let mut fbs = vec![LinearFramebuffer::new(4, 4, PixelFormat::Rgba8)];
    let mut textures = TextureManager::default();
    executor.execute(&begin, &mut fbs, &mut textures).unwrap();
    let (fb, records) = executor.draw_vertex_records(&draw).unwrap();
    assert_eq!(fb, 0);
    assert_eq!(records.len(), 3);
    let all = red_triangle();
    let stride = SOFTWARE_RENDER_VERTEX_STRIDE as usize;
    for (i, r) in records.iter().enumerate() {
        assert_eq!(r.as_slice(), &all[i * stride..(i + 1) * stride]);
    }
    let (_, beyond) = executor
        .draw_vertex_records(&GpuCommand::Draw { vertex_count: 2, first_vertex: 2 })
        .unwrap();
    assert_eq!(beyond.len(), 1);
    assert!(executor.draw_vertex_records(&GpuCommand::EndRenderPass).is_none());
}
